//! The Dispatch Synthesizer: builds, for a sum type, a single generic
//! forwarding-contract implementation that delegates an operation to
//! whichever variant is active, constrained so that every distinct payload
//! type itself satisfies the same contract for the same input and output.

use vstd::prelude::*;
use vstd::string::StringExecFns;
use crate::analyze::{
    MatchPattern, PatternX, analyze_variant, pattern_clone, variant_patterns,
};
use crate::ast::{
    Generics, GenericsX, SumType, SumTypeX, TypeExpr, TypeX, contains_string, generics_clone,
    render_sig, sig, ty_clone,
};
use crate::convert::{all_single_payload, distinct_variant_names, payload_sig};
use crate::error::{Error, ErrorX, error_clone};

verus! {

broadcast use vstd::seq::group_seq_axioms, vstd::std_specs::vec::group_vec_axioms;

/// Mathematical view of one dispatch arm.
pub struct DispatchArmX {
    pub pattern: PatternX,
    pub payload_ty: TypeX,
}

/// One arm of the synthesized dispatch: it matches one variant, binding
/// the payload to `value`, and delegates the call to the payload type's
/// own forwarding-contract implementation, passing the input through
/// unchanged and returning its output unchanged.
pub struct DispatchArm {
    pub pattern: MatchPattern,
    pub payload_ty: TypeExpr,
}

impl DispatchArm {
    pub open spec fn deep(self) -> DispatchArmX {
        DispatchArmX { pattern: self.pattern.deep(), payload_ty: self.payload_ty.deep() }
    }
}

pub open spec fn dispatch_arms_view(s: Seq<DispatchArm>) -> Seq<DispatchArmX> {
    s.map_values(|a: DispatchArm| a.deep())
}

/// Mathematical view of the synthesized dispatch implementation.
pub struct DispatchX {
    pub generics: GenericsX,
    pub item: Seq<char>,
    pub input_param: Seq<char>,
    pub output_param: Seq<char>,
    pub constraints: Seq<TypeX>,
    pub arms: Seq<DispatchArmX>,
}

/// The synthesized generic forwarding-contract implementation for a sum
/// type. It is parameterized by a fresh input type and a fresh output
/// type, local to the implementation; its where-constraints are the sum
/// type's own, unchanged, plus one clause per distinct payload type
/// requiring that type to satisfy the contract for the same input and
/// output; its body is a single match with one delegating arm per variant.
pub struct DispatchImpl {
    pub generics: Generics,
    pub item: String,
    pub input_param: String,
    pub output_param: String,
    pub constraints: Vec<TypeExpr>,
    pub arms: Vec<DispatchArm>,
}

impl DispatchImpl {
    pub open spec fn deep(self) -> DispatchX {
        DispatchX {
            generics: self.generics.deep(),
            item: self.item@,
            input_param: self.input_param@,
            output_param: self.output_param@,
            constraints: self.constraints@.map_values(|t: TypeExpr| t.deep()),
            arms: dispatch_arms_view(self.arms@),
        }
    }
}

/// What dispatch synthesis yields after the first `n` variants: the
/// constraint list holds each distinct payload type once, in first-seen
/// order — duplicate canonical payload types contribute exactly one clause
/// — and the arm list holds one delegating arm per variant, in declaration
/// order. A variant without exactly one payload fails the whole synthesis
/// with its own diagnostic.
pub open spec fn dispatch_model(item: SumTypeX, n: int) -> Result<
    (Seq<TypeX>, Seq<DispatchArmX>),
    ErrorX,
>
    decreases n,
{
    if n <= 0 {
        Ok((Seq::empty(), Seq::empty()))
    } else {
        match dispatch_model(item, n - 1) {
            Err(e) => Err(e),
            Ok(prev) => match analyze_variant(item.name, item.variants[n - 1]) {
                Err(e) => Err(e.deep()),
                Ok(info) => {
                    let arms = prev.1.push(
                        DispatchArmX { pattern: info.pattern, payload_ty: info.ty },
                    );
                    if exists|j: int|
                        0 <= j < prev.0.len() && sig(#[trigger] prev.0[j]) == sig(info.ty) {
                        Ok((prev.0, arms))
                    } else {
                        Ok((prev.0.push(info.ty), arms))
                    }
                },
            },
        }
    }
}

/// Whether an executable dispatch-synthesis result equals an expected one.
pub open spec fn dispatch_res_matches(
    r: Result<DispatchImpl, Error>,
    m: Result<(Seq<TypeX>, Seq<DispatchArmX>), ErrorX>,
) -> bool {
    match (r, m) {
        (Ok(d), Ok(p)) => d.deep().constraints == p.0 && d.deep().arms == p.1,
        (Err(e), Err(ex)) => e.deep() == ex,
        _ => false,
    }
}

proof fn lemma_dispatch_err_stable(item: SumTypeX, m: int, n: int)
    requires
        0 <= m <= n,
        dispatch_model(item, m) is Err,
    ensures
        dispatch_model(item, n) == dispatch_model(item, m),
    decreases n - m,
{
    if m < n {
        lemma_dispatch_err_stable(item, m, n - 1);
    }
}

/// Synthesizes the forwarding-contract implementation for a sum type: one
/// constraint per distinct payload type, one delegating arm per variant.
/// The fresh input and output type parameters are named `I` and `R`; the
/// sum type's own generic-parameter list and where-constraints are
/// propagated unchanged.
#[verifier::loop_isolation(false)]
pub fn forwarding2(item: &SumType) -> (r: Result<DispatchImpl, Error>)
    ensures
        dispatch_res_matches(r, dispatch_model(item.deep(), item.variants@.len() as int)),
        r is Ok ==> {
            &&& r->Ok_0.generics.deep() == item.generics.deep()
            &&& r->Ok_0.item@ == item.name@
            &&& r->Ok_0.input_param@ == "I"@
            &&& r->Ok_0.output_param@ == "R"@
        },
{
    let ghost n = item.variants@.len() as int;
    let infos = variant_patterns(item);
    let mut constraints: Vec<TypeExpr> = Vec::new();
    let mut arms: Vec<DispatchArm> = Vec::new();
    let mut seen: Vec<String> = Vec::new();
    let mut i: usize = 0;
    while i < infos.len()
        invariant
            i <= infos@.len(),
            dispatch_model(item.deep(), i as int) is Ok,
            constraints@.map_values(|t: TypeExpr| t.deep()) == dispatch_model(
                item.deep(),
                i as int,
            )->Ok_0.0,
            dispatch_arms_view(arms@) == dispatch_model(item.deep(), i as int)->Ok_0.1,
            seen@.len() == constraints@.len(),
            forall|j: int|
                0 <= j < seen@.len() ==> (#[trigger] seen@[j])@ == sig(constraints@[j].deep()),
        decreases infos@.len() - i,
    {
        let ghost prev = dispatch_model(item.deep(), i as int)->Ok_0;
        proof {
            assert(item.deep().variants[i as int] == item.variants@[i as int].deep());
        }
        match &infos[i] {
            Err(e) => {
                proof {
                    lemma_dispatch_err_stable(item.deep(), i + 1, n);
                }
                return Err(error_clone(e));
            },
            Ok(info) => {
                arms.push(
                    DispatchArm {
                        pattern: pattern_clone(&info.pattern),
                        payload_ty: ty_clone(&info.ty),
                    },
                );
                proof {
                    assert(dispatch_arms_view(arms@) =~= prev.1.push(
                        DispatchArmX {
                            pattern: info.pattern.deep(),
                            payload_ty: info.ty.deep(),
                        },
                    ));
                }
                let s = render_sig(&info.ty);
                if contains_string(&seen, &s) {
                    proof {
                        let j = choose|j: int| 0 <= j < seen@.len() && seen@[j]@ == s@;
                        assert(sig(prev.0[j]) == sig(info.deep().ty));
                    }
                } else {
                    proof {
                        assert forall|j: int| 0 <= j < prev.0.len() implies sig(
                            #[trigger] prev.0[j],
                        ) != sig(info.deep().ty) by {
                            assert(seen@[j]@ == sig(prev.0[j]));
                        }
                    }
                    constraints.push(ty_clone(&info.ty));
                    seen.push(s);
                    proof {
                        assert(constraints@.map_values(|t: TypeExpr| t.deep()) =~= prev.0.push(
                            info.ty.deep(),
                        ));
                    }
                }
            },
        }
        i = i + 1;
    }
    Ok(
        DispatchImpl {
            generics: generics_clone(&item.generics),
            item: item.name.clone(),
            input_param: String::from_str("I"),
            output_param: String::from_str("R"),
            constraints,
            arms,
        },
    )
}

/// The first dispatch arm covering the given variant.
pub open spec fn find_dispatch_arm(arms: Seq<DispatchArmX>, variant: Seq<char>) -> Option<
    DispatchArmX,
>
    decreases arms.len(),
{
    if arms.len() == 0 {
        None
    } else if arms[0].pattern.variant == variant {
        Some(arms[0])
    } else {
        find_dispatch_arm(arms.drop_first(), variant)
    }
}

proof fn lemma_find_dispatch_arm_at(arms: Seq<DispatchArmX>, variant: Seq<char>, k: int)
    requires
        0 <= k < arms.len(),
        arms[k].pattern.variant == variant,
        forall|j: int| 0 <= j < k ==> (#[trigger] arms[j]).pattern.variant != variant,
    ensures
        find_dispatch_arm(arms, variant) == Some(arms[k]),
    decreases k,
{
    if k == 0 {
    } else {
        assert(arms[0].pattern.variant != variant);
        assert forall|j: int|
            0 <= j < k - 1 implies (#[trigger] arms.drop_first()[j]).pattern.variant != variant by {
            assert(arms.drop_first()[j] == arms[j + 1]);
        }
        assert(arms.drop_first()[k - 1] == arms[k]);
        lemma_find_dispatch_arm_at(arms.drop_first(), variant, k - 1);
    }
}

/// Whether some constraint's canonical signature is the i-th variant's
/// payload-type signature.
pub open spec fn constraint_covers(cs: Seq<TypeX>, item: SumTypeX, i: int) -> bool {
    exists|j: int| 0 <= j < cs.len() && sig(#[trigger] cs[j]) == payload_sig(item, i)
}

/// What evaluating the synthesized dispatch on a sum-type value means:
/// the arm covering the active variant applies the payload type's own
/// implementation of the contract to the payload and the input, both
/// unchanged. `impls` gives, per canonical payload-type signature, that
/// type's own implementation.
pub open spec fn dispatch_eval<V, I, R>(
    arms: Seq<DispatchArmX>,
    impls: Map<Seq<char>, spec_fn(V, I) -> R>,
    variant: Seq<char>,
    payload: V,
    input: I,
) -> Option<R> {
    match find_dispatch_arm(arms, variant) {
        Some(arm) => if impls.dom().contains(sig(arm.payload_ty)) {
            Some(impls[sig(arm.payload_ty)](payload, input))
        } else {
            None
        },
        None => None,
    }
}

proof fn lemma_dispatch_ok_prefix(item: SumTypeX, n: int)
    requires
        0 <= n <= item.variants.len(),
        forall|i: int|
            0 <= i < n ==> analyze_variant(item.name, #[trigger] item.variants[i]) is Ok,
    ensures
        dispatch_model(item, n) is Ok,
        dispatch_model(item, n)->Ok_0.1.len() == n,
        forall|i: int|
            0 <= i < n ==> dispatch_model(item, n)->Ok_0.1[i] == (DispatchArmX {
                pattern: analyze_variant(item.name, item.variants[i])->Ok_0.pattern,
                payload_ty: analyze_variant(item.name, item.variants[i])->Ok_0.ty,
            }),
        forall|j1: int, j2: int|
            0 <= j1 < j2 < dispatch_model(item, n)->Ok_0.0.len() ==> sig(
                #[trigger] dispatch_model(item, n)->Ok_0.0[j1],
            ) != sig(#[trigger] dispatch_model(item, n)->Ok_0.0[j2]),
        forall|i: int|
            0 <= i < n ==> #[trigger] constraint_covers(dispatch_model(item, n)->Ok_0.0, item, i),
    decreases n,
{
    if n > 0 {
        lemma_dispatch_ok_prefix(item, n - 1);
        let prev = dispatch_model(item, n - 1)->Ok_0;
        let cs = dispatch_model(item, n)->Ok_0.0;
        let info = analyze_variant(item.name, item.variants[n - 1])->Ok_0;
        if exists|j: int| 0 <= j < prev.0.len() && sig(#[trigger] prev.0[j]) == sig(info.ty) {
            assert(cs == prev.0);
        } else {
            assert(cs == prev.0.push(info.ty));
            assert(sig(cs[cs.len() - 1]) == payload_sig(item, n - 1));
        }
        assert forall|i: int| 0 <= i < n implies #[trigger] constraint_covers(cs, item, i) by {
            if i < n - 1 {
                assert(constraint_covers(prev.0, item, i));
                let j = choose|j: int|
                    0 <= j < prev.0.len() && sig(#[trigger] prev.0[j]) == payload_sig(item, i);
                assert(cs[j] == prev.0[j]);
                assert(sig(cs[j]) == payload_sig(item, i));
            } else {
                if exists|j: int| 0 <= j < prev.0.len() && sig(#[trigger] prev.0[j]) == sig(
                    info.ty,
                ) {
                    let j = choose|j: int|
                        0 <= j < prev.0.len() && sig(#[trigger] prev.0[j]) == sig(info.ty);
                    assert(sig(cs[j]) == payload_sig(item, i));
                } else {
                    assert(sig(cs[cs.len() - 1]) == payload_sig(item, i));
                }
            }
        }
    }
}

/// Law (constraint deduplication): for a sum type whose variants each
/// carry exactly one payload, the synthesized constraint list mentions
/// every payload type's canonical signature, and mentions no signature
/// twice — duplicate payload types contribute exactly one clause.
pub proof fn lemma_dispatch_constraint_dedup(item: SumTypeX)
    requires
        all_single_payload(item),
    ensures
        dispatch_model(item, item.variants.len() as int) is Ok,
        ({
            let cs = dispatch_model(item, item.variants.len() as int)->Ok_0.0;
            &&& forall|j1: int, j2: int|
                0 <= j1 < j2 < cs.len() ==> sig(#[trigger] cs[j1]) != sig(#[trigger] cs[j2])
            &&& forall|i: int|
                0 <= i < item.variants.len() ==> #[trigger] constraint_covers(cs, item, i)
        }),
{
    lemma_dispatch_ok_prefix(item, item.variants.len() as int);
}

/// Law (dispatch delegation): for a sum type whose variants each carry
/// exactly one payload and have pairwise-distinct names, dispatch
/// synthesis succeeds with one arm per variant, and evaluating the
/// dispatch on a value whose active variant is the i-th variant yields
/// exactly what the i-th payload type's own implementation yields on the
/// same payload and the same input — the call is delegated, unchanged.
pub proof fn lemma_dispatch_delegation<V, I, R>(
    item: SumTypeX,
    i: int,
    impls: Map<Seq<char>, spec_fn(V, I) -> R>,
    payload: V,
    input: I,
)
    requires
        all_single_payload(item),
        distinct_variant_names(item),
        0 <= i < item.variants.len(),
        impls.dom().contains(payload_sig(item, i)),
    ensures
        dispatch_model(item, item.variants.len() as int) is Ok,
        dispatch_model(item, item.variants.len() as int)->Ok_0.1.len() == item.variants.len(),
        dispatch_eval(
            dispatch_model(item, item.variants.len() as int)->Ok_0.1,
            impls,
            item.variants[i].name,
            payload,
            input,
        ) == Some(impls[payload_sig(item, i)](payload, input)),
{
    let n = item.variants.len() as int;
    lemma_dispatch_ok_prefix(item, n);
    let arms = dispatch_model(item, n)->Ok_0.1;
    assert forall|j: int| 0 <= j < arms.len() implies (#[trigger] arms[j]).pattern.variant
        == item.variants[j].name by {
        assert(arms[j] == (DispatchArmX {
            pattern: analyze_variant(item.name, item.variants[j])->Ok_0.pattern,
            payload_ty: analyze_variant(item.name, item.variants[j])->Ok_0.ty,
        }));
    }
    assert forall|j: int| 0 <= j < i implies (#[trigger] arms[j]).pattern.variant
        != item.variants[i].name by {
        assert(arms[j].pattern.variant == item.variants[j].name);
    }
    lemma_find_dispatch_arm_at(arms, item.variants[i].name, i);
    assert(sig(arms[i].payload_ty) == payload_sig(item, i));
}

} // verus!
