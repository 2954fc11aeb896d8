//! The Conversion Synthesizer: builds a lossless embedding of each payload
//! type into the sum type, and a fallible projection of the sum type back
//! to each distinct payload type. Structurally ambiguous sum types — two
//! variants declaring the same canonical payload-type signature — are
//! rejected during embedding synthesis.

use vstd::prelude::*;
use vstd::string::StringExecFns;
use crate::analyze::{
    MatchPattern, PatternX, analyze_variant, pattern_clone, result_matches,
    variant_patterns,
};
use crate::ast::{
    Generics, GenericsX, SumType, SumTypeX, TypeExpr, TypeX, VariantX, contains_string,
    generics_clone, render_sig, sig, ty_clone,
};
use crate::error::{Error, ErrorX, error_clone};

verus! {

broadcast use vstd::seq::group_seq_axioms, vstd::std_specs::vec::group_vec_axioms;

/// Mathematical view of one synthesized embedding.
pub struct EmbeddingX {
    pub generics: GenericsX,
    pub payload_ty: TypeX,
    pub pattern: PatternX,
}

/// One synthesized embedding of a payload type into the sum type: applied
/// to a payload value, it constructs the sum type through the variant the
/// pattern names. The sum type's generic-parameter list is propagated
/// unchanged.
pub struct EmbeddingImpl {
    pub generics: Generics,
    pub payload_ty: TypeExpr,
    pub pattern: MatchPattern,
}

impl EmbeddingImpl {
    pub open spec fn deep(self) -> EmbeddingX {
        EmbeddingX {
            generics: self.generics.deep(),
            payload_ty: self.payload_ty.deep(),
            pattern: self.pattern.deep(),
        }
    }
}

/// Mathematical view of a projection arm's outcome.
pub enum ArmBodyX {
    Success,
    Failure(Seq<char>),
}

/// What one arm of a synthesized projection returns: the payload bound by
/// the arm's pattern on success, or a static message on failure.
pub enum ArmBody {
    Success,
    Failure(String),
}

impl ArmBody {
    pub open spec fn deep(self) -> ArmBodyX {
        match self {
            ArmBody::Success => ArmBodyX::Success,
            ArmBody::Failure(m) => ArmBodyX::Failure(m@),
        }
    }
}

/// Mathematical view of one projection arm.
pub struct ProjArmX {
    pub pattern: PatternX,
    pub body: ArmBodyX,
}

/// One arm of a synthesized projection, covering one variant.
pub struct ProjArm {
    pub pattern: MatchPattern,
    pub body: ArmBody,
}

impl ProjArm {
    pub open spec fn deep(self) -> ProjArmX {
        ProjArmX { pattern: self.pattern.deep(), body: self.body.deep() }
    }
}

pub open spec fn proj_arms_view(s: Seq<ProjArm>) -> Seq<ProjArmX> {
    s.map_values(|a: ProjArm| a.deep())
}

/// Mathematical view of one synthesized projection.
pub struct ProjectionX {
    pub generics: GenericsX,
    pub target_ty: TypeX,
    pub arms: Seq<ProjArmX>,
}

/// One synthesized fallible projection of the sum type to a target payload
/// type, with one arm per variant in declaration order. The sum type's
/// generic-parameter list is propagated unchanged.
pub struct ProjectionImpl {
    pub generics: Generics,
    pub target_ty: TypeExpr,
    pub arms: Vec<ProjArm>,
}

impl ProjectionImpl {
    pub open spec fn deep(self) -> ProjectionX {
        ProjectionX {
            generics: self.generics.deep(),
            target_ty: self.target_ty.deep(),
            arms: proj_arms_view(self.arms@),
        }
    }
}

/// The hint substituted for a bare `UnitVariant` failure during embedding
/// synthesis, steering the user toward running normalization first.
pub open spec fn from_hint() -> Seq<char> {
    "Cannot use unit enum variants with `Derive(From)`. If you are using the `forwarder` macro, make sure it is before any derives."@
}

fn make_from_hint() -> (r: String)
    ensures
        r@ == from_hint(),
{
    String::from_str(
        "Cannot use unit enum variants with `Derive(From)`. If you are using the `forwarder` macro, make sure it is before any derives.",
    )
}

/// The corresponding hint for projection synthesis.
pub open spec fn tryinto_hint() -> Seq<char> {
    "Cannot use unit enum variants with `Derive(TryInto)`. If you are using the `forwarder` macro, make sure it is before any derives."@
}

fn make_tryinto_hint() -> (r: String)
    ensures
        r@ == tryinto_hint(),
{
    String::from_str(
        "Cannot use unit enum variants with `Derive(TryInto)`. If you are using the `forwarder` macro, make sure it is before any derives.",
    )
}

/// A `UnitVariant` failure is re-labeled with a clarifying hint; any other
/// failure is surfaced as it is.
pub open spec fn relabel_unit_variant(e: ErrorX, hint: Seq<char>) -> ErrorX {
    match e {
        ErrorX::UnitVariant(s) => ErrorX::Other(s, hint),
        _ => e,
    }
}

/// The failure message of a projection arm:
/// `Cannot convert <SumType>::<Variant> to <TargetType>`.
pub open spec fn cannot_convert_msg(item: Seq<char>, variant: Seq<char>, target: Seq<char>) -> Seq<
    char,
> {
    "Cannot convert "@ + item + "::"@ + variant + " to "@ + target
}

fn make_cannot_convert_msg(item: &String, variant: &String, target: &String) -> (r: String)
    ensures
        r@ == cannot_convert_msg(item@, variant@, target@),
{
    let mut r = String::from_str("Cannot convert ");
    r.append(item.as_str());
    r.append("::");
    r.append(variant.as_str());
    r.append(" to ");
    r.append(target.as_str());
    r
}

/// What embedding synthesis yields after the first `n` variants: for every
/// variant, in declaration order, one embedding if its payload type's
/// canonical signature has not been seen; the first violation — a variant
/// without exactly one payload, or a signature already seen — fails the
/// whole synthesis with its diagnostic, and nothing is produced.
pub open spec fn from_model(item: SumTypeX, n: int) -> Result<Seq<EmbeddingX>, ErrorX>
    decreases n,
{
    if n <= 0 {
        Ok(Seq::empty())
    } else {
        match from_model(item, n - 1) {
            Err(e) => Err(e),
            Ok(prev) => match analyze_variant(item.name, item.variants[n - 1]) {
                Err(e) => Err(relabel_unit_variant(e.deep(), from_hint())),
                Ok(info) => {
                    if exists|j: int|
                        0 <= j < prev.len() && sig(#[trigger] prev[j].payload_ty) == sig(info.ty) {
                        Err(ErrorX::DuplicateType(info.ty_span))
                    } else {
                        Ok(
                            prev.push(
                                EmbeddingX {
                                    generics: item.generics,
                                    payload_ty: info.ty,
                                    pattern: info.pattern,
                                },
                            ),
                        )
                    }
                },
            },
        }
    }
}

/// Whether an executable embedding-synthesis result equals an expected one.
pub open spec fn from_res_matches(
    r: Result<Vec<EmbeddingImpl>, Error>,
    m: Result<Seq<EmbeddingX>, ErrorX>,
) -> bool {
    match (r, m) {
        (Ok(v), Ok(s)) => v@.len() == s.len() && forall|i: int|
            0 <= i < s.len() ==> (#[trigger] v@[i]).deep() == s[i],
        (Err(e), Err(ex)) => e.deep() == ex,
        _ => false,
    }
}

proof fn lemma_from_err_stable(item: SumTypeX, m: int, n: int)
    requires
        0 <= m <= n,
        from_model(item, m) is Err,
    ensures
        from_model(item, n) == from_model(item, m),
    decreases n - m,
{
    if m < n {
        lemma_from_err_stable(item, m, n - 1);
    }
}

/// Synthesizes, for every variant in declaration order, an embedding of
/// its payload type into the sum type via that variant's constructor.
/// Fails fast on the first variant without exactly one payload (with a
/// hint toward normalization ordering) and on the first payload type whose
/// canonical signature was already seen (`DuplicateType`); no partial
/// output is returned.
#[verifier::loop_isolation(false)]
pub fn derive_enum_from2(item: &SumType) -> (r: Result<Vec<EmbeddingImpl>, Error>)
    ensures
        from_res_matches(r, from_model(item.deep(), item.variants@.len() as int)),
{
    let ghost n = item.variants@.len() as int;
    let infos = variant_patterns(item);
    let mut out: Vec<EmbeddingImpl> = Vec::new();
    let mut seen: Vec<String> = Vec::new();
    let mut i: usize = 0;
    while i < infos.len()
        invariant
            i <= infos@.len(),
            from_model(item.deep(), i as int) is Ok,
            out@.len() == from_model(item.deep(), i as int)->Ok_0.len(),
            forall|j: int|
                0 <= j < out@.len() ==> (#[trigger] out@[j]).deep() == from_model(
                    item.deep(),
                    i as int,
                )->Ok_0[j],
            seen@.len() == out@.len(),
            forall|j: int|
                0 <= j < seen@.len() ==> (#[trigger] seen@[j])@ == sig(out@[j].payload_ty.deep()),
        decreases infos@.len() - i,
    {
        let ghost prev = from_model(item.deep(), i as int)->Ok_0;
        proof {
            assert(item.deep().variants[i as int] == item.variants@[i as int].deep());
        }
        match &infos[i] {
            Err(e) => {
                proof {
                    lemma_from_err_stable(item.deep(), i + 1, n);
                }
                match e {
                    Error::UnitVariant(s) => {
                        return Err(Error::Other(*s, make_from_hint()));
                    },
                    _ => {
                        return Err(error_clone(e));
                    },
                }
            },
            Ok(info) => {
                let s = render_sig(&info.ty);
                if contains_string(&seen, &s) {
                    proof {
                        let j = choose|j: int| 0 <= j < seen@.len() && seen@[j]@ == s@;
                        assert(sig(prev[j].payload_ty) == sig(info.deep().ty));
                        lemma_from_err_stable(item.deep(), i + 1, n);
                    }
                    return Err(Error::DuplicateType(info.ty_span));
                } else {
                    proof {
                        assert forall|j: int| 0 <= j < prev.len() implies sig(
                            #[trigger] prev[j].payload_ty,
                        ) != sig(info.deep().ty) by {
                            assert(seen@[j]@ == sig(prev[j].payload_ty));
                        }
                    }
                    seen.push(s);
                    out.push(
                        EmbeddingImpl {
                            generics: generics_clone(&item.generics),
                            payload_ty: ty_clone(&info.ty),
                            pattern: pattern_clone(&info.pattern),
                        },
                    );
                }
            },
        }
        i = i + 1;
    }
    Ok(out)
}

/// The arm a projection to `target` holds for variant `v`: success if the
/// variant's payload type matches the target's canonical signature, else a
/// failure carrying the message naming the sum type, the variant, and the
/// target.
pub open spec fn arm_model(item_name: Seq<char>, v: VariantX, target: TypeX) -> ProjArmX {
    match analyze_variant(item_name, v) {
        Ok(info) => ProjArmX {
            pattern: info.pattern,
            body: if sig(info.ty) == sig(target) {
                ArmBodyX::Success
            } else {
                ArmBodyX::Failure(cannot_convert_msg(item_name, v.name, sig(target)))
            },
        },
        Err(_) => ProjArmX {
            pattern: PatternX { item: item_name, variant: v.name, field: None },
            body: ArmBodyX::Success,
        },
    }
}

/// The projection of `item` to `target`: one arm per variant, in
/// declaration order.
pub open spec fn projection_model(item: SumTypeX, target: TypeX) -> ProjectionX {
    ProjectionX {
        generics: item.generics,
        target_ty: target,
        arms: Seq::new(
            item.variants.len(),
            |j: int| arm_model(item.name, item.variants[j], target),
        ),
    }
}

/// What projection synthesis yields after the first `n` variants: one
/// projection per distinct payload-type signature, in first-seen order; a
/// variant without exactly one payload fails the whole synthesis.
pub open spec fn tryinto_model(item: SumTypeX, n: int) -> Result<Seq<ProjectionX>, ErrorX>
    decreases n,
{
    if n <= 0 {
        Ok(Seq::empty())
    } else {
        match tryinto_model(item, n - 1) {
            Err(e) => Err(e),
            Ok(prev) => match analyze_variant(item.name, item.variants[n - 1]) {
                Err(e) => Err(relabel_unit_variant(e.deep(), tryinto_hint())),
                Ok(info) => {
                    if exists|j: int|
                        0 <= j < prev.len() && sig(#[trigger] prev[j].target_ty) == sig(info.ty) {
                        Ok(prev)
                    } else {
                        Ok(prev.push(projection_model(item, info.ty)))
                    }
                },
            },
        }
    }
}

/// Whether an executable projection-synthesis result equals an expected one.
pub open spec fn tryinto_res_matches(
    r: Result<Vec<ProjectionImpl>, Error>,
    m: Result<Seq<ProjectionX>, ErrorX>,
) -> bool {
    match (r, m) {
        (Ok(v), Ok(s)) => v@.len() == s.len() && forall|i: int|
            0 <= i < s.len() ==> (#[trigger] v@[i]).deep() == s[i],
        (Err(e), Err(ex)) => e.deep() == ex,
        _ => false,
    }
}

proof fn lemma_tryinto_err_stable(item: SumTypeX, m: int, n: int)
    requires
        0 <= m <= n,
        tryinto_model(item, m) is Err,
    ensures
        tryinto_model(item, n) == tryinto_model(item, m),
    decreases n - m,
{
    if m < n {
        lemma_tryinto_err_stable(item, m, n - 1);
    }
}

proof fn lemma_tryinto_ok_range(item: SumTypeX, a: int, b: int)
    requires
        0 <= a <= b,
        tryinto_model(item, a) is Ok,
        forall|k: int| a <= k < b ==> analyze_variant(item.name, #[trigger] item.variants[k]) is Ok,
    ensures
        tryinto_model(item, b) is Ok,
    decreases b - a,
{
    if a < b {
        lemma_tryinto_ok_range(item, a, b - 1);
    }
}

/// Synthesizes, for each distinct payload-type signature across all
/// variants in first-seen order, one fallible projection of the sum type
/// to that payload type. Every variant contributes one arm to every
/// projection: the payload on a signature match, otherwise a failure
/// message naming the originating variant, the sum type, and the target.
/// Fails fast on the first variant without exactly one payload, with a
/// hint toward normalization ordering.
#[verifier::loop_isolation(false)]
pub fn derive_enum_tryinto2(item: &SumType) -> (r: Result<Vec<ProjectionImpl>, Error>)
    ensures
        tryinto_res_matches(r, tryinto_model(item.deep(), item.variants@.len() as int)),
{
    let ghost n = item.variants@.len() as int;
    let infos = variant_patterns(item);
    let mut out: Vec<ProjectionImpl> = Vec::new();
    let mut seen: Vec<String> = Vec::new();
    let mut i: usize = 0;
    while i < infos.len()
        invariant
            i <= infos@.len(),
            tryinto_model(item.deep(), i as int) is Ok,
            forall|k: int| 0 <= k < i ==> infos@[k] is Ok,
            out@.len() == tryinto_model(item.deep(), i as int)->Ok_0.len(),
            forall|j: int|
                0 <= j < out@.len() ==> (#[trigger] out@[j]).deep() == tryinto_model(
                    item.deep(),
                    i as int,
                )->Ok_0[j],
            seen@.len() == out@.len(),
            forall|j: int|
                0 <= j < seen@.len() ==> (#[trigger] seen@[j])@ == sig(out@[j].target_ty.deep()),
        decreases infos@.len() - i,
    {
        let ghost prev = tryinto_model(item.deep(), i as int)->Ok_0;
        proof {
            assert(item.deep().variants[i as int] == item.variants@[i as int].deep());
        }
        match &infos[i] {
            Err(e) => {
                proof {
                    lemma_tryinto_err_stable(item.deep(), i + 1, n);
                }
                match e {
                    Error::UnitVariant(s) => {
                        return Err(Error::Other(*s, make_tryinto_hint()));
                    },
                    _ => {
                        return Err(error_clone(e));
                    },
                }
            },
            Ok(info) => {
                let s = render_sig(&info.ty);
                if !contains_string(&seen, &s) {
                    proof {
                        assert forall|j: int| 0 <= j < prev.len() implies sig(
                            #[trigger] prev[j].target_ty,
                        ) != sig(info.deep().ty) by {
                            assert(seen@[j]@ == sig(prev[j].target_ty));
                        }
                    }
                    let mut arms: Vec<ProjArm> = Vec::new();
                    let mut k: usize = 0;
                    while k < infos.len()
                        invariant
                            k <= infos@.len(),
                            forall|j: int| 0 <= j < k ==> infos@[j] is Ok,
                            arms@.len() == k,
                            forall|j: int|
                                0 <= j < k ==> (#[trigger] arms@[j]).deep() == arm_model(
                                    item.name@,
                                    item.variants@[j].deep(),
                                    info.deep().ty,
                                ),
                        decreases infos@.len() - k,
                    {
                        proof {
                            assert(item.deep().variants[k as int] == item.variants@[
                                k as int
                            ].deep());
                        }
                        match &infos[k] {
                            Err(e) => {
                                proof {
                                    assert forall|j: int| i as int <= j < k as int implies analyze_variant(
                                        item.deep().name,
                                        #[trigger] item.deep().variants[j],
                                    ) is Ok by {
                                        assert(result_matches(
                                            infos@[j],
                                            analyze_variant(item.name@, item.variants@[j].deep()),
                                        ));
                                        assert(infos@[j] is Ok);
                                        assert(item.deep().variants[j] == item.variants@[j].deep());
                                    }
                                    lemma_tryinto_ok_range(item.deep(), i as int, k as int);
                                    lemma_tryinto_err_stable(item.deep(), k + 1, n);
                                }
                                match e {
                                    Error::UnitVariant(sp) => {
                                        return Err(Error::Other(*sp, make_tryinto_hint()));
                                    },
                                    _ => {
                                        return Err(error_clone(e));
                                    },
                                }
                            },
                            Ok(aj) => {
                                let sj = render_sig(&aj.ty);
                                if sj.eq(&s) {
                                    arms.push(
                                        ProjArm {
                                            pattern: pattern_clone(&aj.pattern),
                                            body: ArmBody::Success,
                                        },
                                    );
                                } else {
                                    arms.push(
                                        ProjArm {
                                            pattern: pattern_clone(&aj.pattern),
                                            body: ArmBody::Failure(
                                                make_cannot_convert_msg(&item.name, &aj.name, &s),
                                            ),
                                        },
                                    );
                                }
                            },
                        }
                        k = k + 1;
                    }
                    let proj = ProjectionImpl {
                        generics: generics_clone(&item.generics),
                        target_ty: ty_clone(&info.ty),
                        arms,
                    };
                    proof {
                        assert(proj_arms_view(proj.arms@) =~= projection_model(
                            item.deep(),
                            info.deep().ty,
                        ).arms);
                    }
                    out.push(proj);
                    seen.push(s);
                } else {
                    proof {
                        let j = choose|j: int| 0 <= j < seen@.len() && seen@[j]@ == s@;
                        assert(sig(prev[j].target_ty) == sig(info.deep().ty));
                    }
                }
            },
        }
        i = i + 1;
    }
    Ok(out)
}

/// A run-time value of a synthesized sum type: the name of the active
/// variant and the payload it carries.
pub struct SumValue<V> {
    pub variant: String,
    pub value: V,
}

/// Applies a synthesized embedding to a payload value: the resulting
/// sum-type value's active variant is exactly the embedding's originating
/// variant, and its payload is the given value, unchanged.
pub fn apply_embedding<V>(e: &EmbeddingImpl, v: V) -> (r: SumValue<V>)
    ensures
        r.variant@ == e.pattern.deep().variant,
        r.value == v,
{
    SumValue { variant: e.pattern.variant.clone(), value: v }
}

/// The first arm of a synthesized projection that covers the given
/// variant; generated arms are mutually exclusive by construction, so at
/// most one covers it.
pub open spec fn find_arm(arms: Seq<ProjArmX>, variant: Seq<char>) -> Option<ProjArmX>
    decreases arms.len(),
{
    if arms.len() == 0 {
        None
    } else if arms[0].pattern.variant == variant {
        Some(arms[0])
    } else {
        find_arm(arms.drop_first(), variant)
    }
}

proof fn lemma_find_arm_at(arms: Seq<ProjArmX>, variant: Seq<char>, k: int)
    requires
        0 <= k < arms.len(),
        arms[k].pattern.variant == variant,
        forall|j: int| 0 <= j < k ==> (#[trigger] arms[j]).pattern.variant != variant,
    ensures
        find_arm(arms, variant) == Some(arms[k]),
    decreases k,
{
    if k == 0 {
    } else {
        assert(arms[0].pattern.variant != variant);
        assert forall|j: int| 0 <= j < k - 1 implies (#[trigger] arms.drop_first()[j]).pattern.variant
            != variant by {
            assert(arms.drop_first()[j] == arms[j + 1]);
        }
        assert(arms.drop_first()[k - 1] == arms[k]);
        lemma_find_arm_at(arms.drop_first(), variant, k - 1);
    }
}

proof fn lemma_find_arm_none(arms: Seq<ProjArmX>, variant: Seq<char>)
    requires
        forall|j: int| 0 <= j < arms.len() ==> (#[trigger] arms[j]).pattern.variant != variant,
    ensures
        find_arm(arms, variant) is None,
    decreases arms.len(),
{
    if arms.len() > 0 {
        assert forall|j: int|
            0 <= j < arms.drop_first().len() implies (#[trigger] arms.drop_first()[j]).pattern.variant
            != variant by {
            assert(arms.drop_first()[j] == arms[j + 1]);
        }
        lemma_find_arm_none(arms.drop_first(), variant);
    }
}

/// Applies a synthesized projection to a sum-type value: the arm covering
/// the active variant decides, returning the payload on a success arm and
/// the arm's static message on a failure arm.
#[verifier::loop_isolation(false)]
pub fn apply_projection<V>(p: &ProjectionImpl, sv: SumValue<V>) -> (r: Result<V, String>)
    requires
        find_arm(proj_arms_view(p.arms@), sv.variant@) is Some,
    ensures
        ({
            let arm = find_arm(proj_arms_view(p.arms@), sv.variant@)->Some_0;
            &&& (arm.body is Success ==> r == Ok::<V, String>(sv.value))
            &&& (arm.body is Failure ==> r is Err && r->Err_0@ == arm.body->Failure_0)
        }),
{
    let mut k: usize = 0;
    while k < p.arms.len()
        invariant
            k <= p.arms@.len(),
            forall|j: int|
                0 <= j < k ==> (#[trigger] proj_arms_view(p.arms@)[j]).pattern.variant != sv.variant@,
        decreases p.arms@.len() - k,
    {
        if p.arms[k].pattern.variant.eq(&sv.variant) {
            proof {
                lemma_find_arm_at(proj_arms_view(p.arms@), sv.variant@, k as int);
            }
            match &p.arms[k].body {
                ArmBody::Success => {
                    return Ok(sv.value);
                },
                ArmBody::Failure(m) => {
                    return Err(m.clone());
                },
            }
        }
        k = k + 1;
    }
    proof {
        lemma_find_arm_none(proj_arms_view(p.arms@), sv.variant@);
        assert(false);
    }
    Ok(sv.value)
}

/// Every variant resolves to exactly one payload value.
pub open spec fn all_single_payload(item: SumTypeX) -> bool {
    forall|i: int|
        0 <= i < item.variants.len() ==> analyze_variant(
            item.name,
            #[trigger] item.variants[i],
        ) is Ok
}

/// The canonical signature of the i-th variant's payload type.
pub open spec fn payload_sig(item: SumTypeX, i: int) -> Seq<char> {
    sig(analyze_variant(item.name, item.variants[i])->Ok_0.ty)
}

/// No two variants declare the same canonical payload-type signature.
pub open spec fn distinct_payload_sigs(item: SumTypeX) -> bool {
    forall|i: int, j: int|
        0 <= i < j < item.variants.len() ==> payload_sig(item, i) != payload_sig(item, j)
}

/// No two variants share a name.
pub open spec fn distinct_variant_names(item: SumTypeX) -> bool {
    forall|i: int, j: int|
        0 <= i < j < item.variants.len() ==> (#[trigger] item.variants[i]).name != (
        #[trigger] item.variants[j]).name
}

proof fn lemma_from_ok_prefix(item: SumTypeX, n: int)
    requires
        0 <= n <= item.variants.len(),
        forall|i: int|
            0 <= i < n ==> analyze_variant(item.name, #[trigger] item.variants[i]) is Ok,
        forall|i: int, j: int| 0 <= i < j < n ==> payload_sig(item, i) != payload_sig(item, j),
    ensures
        from_model(item, n) is Ok,
        from_model(item, n)->Ok_0.len() == n,
        forall|i: int|
            0 <= i < n ==> from_model(item, n)->Ok_0[i] == (EmbeddingX {
                generics: item.generics,
                payload_ty: analyze_variant(item.name, item.variants[i])->Ok_0.ty,
                pattern: analyze_variant(item.name, item.variants[i])->Ok_0.pattern,
            }),
    decreases n,
{
    if n > 0 {
        lemma_from_ok_prefix(item, n - 1);
        let prev = from_model(item, n - 1)->Ok_0;
        let info = analyze_variant(item.name, item.variants[n - 1])->Ok_0;
        assert forall|j: int| 0 <= j < prev.len() implies sig(#[trigger] prev[j].payload_ty) != sig(
            info.ty,
        ) by {
            assert(sig(prev[j].payload_ty) == payload_sig(item, j));
            assert(sig(info.ty) == payload_sig(item, n - 1));
        }
    }
}

/// Law (embedding totality): for a sum type whose variants each carry
/// exactly one payload and whose payload-type signatures are pairwise
/// distinct, embedding synthesis succeeds and produces exactly one
/// embedding per variant, in declaration order; the i-th embedding embeds
/// the i-th variant's payload type and constructs through the i-th
/// variant, so applying it to a payload value yields a sum-type value
/// whose active variant is exactly the originating one.
pub proof fn lemma_embedding_totality(item: SumTypeX)
    requires
        all_single_payload(item),
        distinct_payload_sigs(item),
    ensures
        from_model(item, item.variants.len() as int) is Ok,
        from_model(item, item.variants.len() as int)->Ok_0.len() == item.variants.len(),
        forall|i: int|
            0 <= i < item.variants.len() ==> (#[trigger] from_model(
                item,
                item.variants.len() as int,
            )->Ok_0[i]).pattern.variant == item.variants[i].name,
        forall|i: int|
            0 <= i < item.variants.len() ==> (#[trigger] from_model(
                item,
                item.variants.len() as int,
            )->Ok_0[i]).payload_ty == analyze_variant(item.name, item.variants[i])->Ok_0.ty,
{
    lemma_from_ok_prefix(item, item.variants.len() as int);
}

/// Law (embedding duplicate rejection): for a sum type whose variants each
/// carry exactly one payload but where two variants share the same
/// canonical payload-type signature, embedding synthesis fails with
/// `DuplicateType`, and — being a failure — produces no fragment at all.
pub proof fn lemma_embedding_duplicate_rejection(item: SumTypeX)
    requires
        all_single_payload(item),
        exists|i: int, j: int|
            0 <= i < j < item.variants.len() && payload_sig(item, i) == payload_sig(item, j),
    ensures
        from_model(item, item.variants.len() as int) is Err,
        from_model(item, item.variants.len() as int)->Err_0 is DuplicateType,
{
    lemma_from_dup(item, item.variants.len() as int);
}

proof fn lemma_from_dup(item: SumTypeX, n: int)
    requires
        0 <= n <= item.variants.len(),
        all_single_payload(item),
        exists|i: int, j: int| 0 <= i < j < n && payload_sig(item, i) == payload_sig(item, j),
    ensures
        from_model(item, n) is Err,
        from_model(item, n)->Err_0 is DuplicateType,
    decreases n,
{
    if exists|i: int, j: int| 0 <= i < j < n - 1 && payload_sig(item, i) == payload_sig(item, j) {
        lemma_from_dup(item, n - 1);
    } else {
        let (i0, j0) = choose|i0: int, j0: int|
            0 <= i0 < j0 < n && payload_sig(item, i0) == payload_sig(item, j0);
        assert(j0 == n - 1);
        lemma_from_ok_prefix(item, n - 1);
        let prev = from_model(item, n - 1)->Ok_0;
        let info = analyze_variant(item.name, item.variants[n - 1])->Ok_0;
        assert(sig(prev[i0].payload_ty) == payload_sig(item, i0));
        assert(sig(info.ty) == payload_sig(item, n - 1));
        assert(sig(prev[i0].payload_ty) == sig(info.ty));
    }
}

proof fn lemma_tryinto_ok_prefix(item: SumTypeX, n: int)
    requires
        0 <= n <= item.variants.len(),
        forall|i: int|
            0 <= i < n ==> analyze_variant(item.name, #[trigger] item.variants[i]) is Ok,
        forall|i: int, j: int| 0 <= i < j < n ==> payload_sig(item, i) != payload_sig(item, j),
    ensures
        tryinto_model(item, n) is Ok,
        tryinto_model(item, n)->Ok_0.len() == n,
        forall|k: int|
            0 <= k < n ==> tryinto_model(item, n)->Ok_0[k] == projection_model(
                item,
                analyze_variant(item.name, item.variants[k])->Ok_0.ty,
            ),
    decreases n,
{
    if n > 0 {
        lemma_tryinto_ok_prefix(item, n - 1);
        let prev = tryinto_model(item, n - 1)->Ok_0;
        let info = analyze_variant(item.name, item.variants[n - 1])->Ok_0;
        assert forall|j: int| 0 <= j < prev.len() implies sig(#[trigger] prev[j].target_ty) != sig(
            info.ty,
        ) by {
            assert(prev[j].target_ty == analyze_variant(item.name, item.variants[j])->Ok_0.ty);
            assert(sig(prev[j].target_ty) == payload_sig(item, j));
            assert(sig(info.ty) == payload_sig(item, n - 1));
        }
    }
}

/// Law (projection round-trip): for a sum type whose variants each carry
/// exactly one payload, with pairwise-distinct payload-type signatures and
/// variant names, projection synthesis yields one projection per variant,
/// and the projection for variant `k` handles a value whose active variant
/// is `i` as follows: when `k == i`, the arm succeeds and returns the
/// payload — so projecting a value built by variant i's embedding back to
/// its own payload type returns the original payload; when `k != i`, the
/// arm fails with exactly the message naming the sum type, the originating
/// variant i, and the target type's canonical signature.
pub proof fn lemma_projection_round_trip(item: SumTypeX, i: int, k: int)
    requires
        all_single_payload(item),
        distinct_payload_sigs(item),
        distinct_variant_names(item),
        0 <= i < item.variants.len(),
        0 <= k < item.variants.len(),
    ensures
        tryinto_model(item, item.variants.len() as int) is Ok,
        tryinto_model(item, item.variants.len() as int)->Ok_0.len() == item.variants.len(),
        ({
            let arm = find_arm(
                tryinto_model(item, item.variants.len() as int)->Ok_0[k].arms,
                item.variants[i].name,
            );
            &&& arm is Some
            &&& (k == i ==> arm->Some_0.body is Success)
            &&& (k != i ==> arm->Some_0.body == ArmBodyX::Failure(
                cannot_convert_msg(item.name, item.variants[i].name, payload_sig(item, k)),
            ))
        }),
{
    let n = item.variants.len() as int;
    lemma_tryinto_ok_prefix(item, n);
    let target = analyze_variant(item.name, item.variants[k])->Ok_0.ty;
    let proj = tryinto_model(item, n)->Ok_0[k];
    assert(proj == projection_model(item, target));
    let arms = proj.arms;
    assert(arms.len() == item.variants.len());
    assert forall|j: int| 0 <= j < arms.len() implies (#[trigger] arms[j]).pattern.variant == item.variants[j].name by {
        assert(arms[j] == arm_model(item.name, item.variants[j], target));
    }
    assert forall|j: int| 0 <= j < i implies (#[trigger] arms[j]).pattern.variant != item.variants[i].name by {
        assert(arms[j].pattern.variant == item.variants[j].name);
    }
    assert(arms[i].pattern.variant == item.variants[i].name);
    lemma_find_arm_at(arms, item.variants[i].name, i);
    assert(arms[i] == arm_model(item.name, item.variants[i], target));
    assert(sig(target) == payload_sig(item, k));
    let info_i = analyze_variant(item.name, item.variants[i])->Ok_0;
    assert(sig(info_i.ty) == payload_sig(item, i));
    if k != i {
        assert(payload_sig(item, i) != payload_sig(item, k));
    }
}

/// Whether some projection's target signature is the i-th variant's
/// payload-type signature.
pub open spec fn projection_covers(ps: Seq<ProjectionX>, item: SumTypeX, i: int) -> bool {
    exists|j: int| 0 <= j < ps.len() && sig(#[trigger] ps[j].target_ty) == payload_sig(item, i)
}

proof fn lemma_tryinto_dedup_prefix(item: SumTypeX, n: int)
    requires
        0 <= n <= item.variants.len(),
        forall|i: int|
            0 <= i < n ==> analyze_variant(item.name, #[trigger] item.variants[i]) is Ok,
    ensures
        tryinto_model(item, n) is Ok,
        forall|j1: int, j2: int|
            0 <= j1 < j2 < tryinto_model(item, n)->Ok_0.len() ==> sig(
                #[trigger] tryinto_model(item, n)->Ok_0[j1].target_ty,
            ) != sig(#[trigger] tryinto_model(item, n)->Ok_0[j2].target_ty),
        forall|i: int|
            0 <= i < n ==> #[trigger] projection_covers(tryinto_model(item, n)->Ok_0, item, i),
    decreases n,
{
    if n > 0 {
        lemma_tryinto_dedup_prefix(item, n - 1);
        let prev = tryinto_model(item, n - 1)->Ok_0;
        let ps = tryinto_model(item, n)->Ok_0;
        let info = analyze_variant(item.name, item.variants[n - 1])->Ok_0;
        if exists|j: int| 0 <= j < prev.len() && sig(#[trigger] prev[j].target_ty) == sig(
            info.ty,
        ) {
            assert(ps == prev);
        } else {
            assert(ps == prev.push(projection_model(item, info.ty)));
            assert(sig(ps[ps.len() - 1].target_ty) == payload_sig(item, n - 1));
        }
        assert forall|i: int| 0 <= i < n implies #[trigger] projection_covers(ps, item, i) by {
            if i < n - 1 {
                assert(projection_covers(prev, item, i));
                let j = choose|j: int|
                    0 <= j < prev.len() && sig(#[trigger] prev[j].target_ty) == payload_sig(
                        item,
                        i,
                    );
                assert(ps[j] == prev[j]);
                assert(sig(ps[j].target_ty) == payload_sig(item, i));
            } else {
                if exists|j: int| 0 <= j < prev.len() && sig(#[trigger] prev[j].target_ty) == sig(
                    info.ty,
                ) {
                    let j = choose|j: int|
                        0 <= j < prev.len() && sig(#[trigger] prev[j].target_ty) == sig(info.ty);
                    assert(ps[j] == prev[j]);
                    assert(sig(ps[j].target_ty) == payload_sig(item, i));
                } else {
                    assert(sig(ps[ps.len() - 1].target_ty) == payload_sig(item, i));
                }
            }
        }
    }
}

/// Law (projection deduplication): for a sum type whose variants each
/// carry exactly one payload, projection synthesis emits one projection
/// per distinct payload-type signature — no two projections share a target
/// signature, and every variant's payload type has a projection targeting
/// it; variants sharing a payload type contribute arms to that same
/// projection rather than separate projections.
pub proof fn lemma_projection_dedup(item: SumTypeX)
    requires
        all_single_payload(item),
    ensures
        tryinto_model(item, item.variants.len() as int) is Ok,
        ({
            let ps = tryinto_model(item, item.variants.len() as int)->Ok_0;
            &&& forall|j1: int, j2: int|
                0 <= j1 < j2 < ps.len() ==> sig(#[trigger] ps[j1].target_ty) != sig(
                    #[trigger] ps[j2].target_ty,
                )
            &&& forall|i: int|
                0 <= i < item.variants.len() ==> #[trigger] projection_covers(ps, item, i)
        }),
{
    lemma_tryinto_dedup_prefix(item, item.variants.len() as int);
}

} // verus!
