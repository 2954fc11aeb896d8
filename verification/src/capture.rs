//! The Call-Site Capture Synthesizer: given a function signature annotated
//! to forward to a named receiver type under a trait-bound list, separates
//! the receiver argument from the remaining arguments, normalizes the
//! captured arguments' reference scopes under one shared blanket tag, and
//! synthesizes a capture record type plus a blanket forwarding-contract
//! implementation over any type satisfying the bound list. Wiring the
//! capture record into an actual call through the dispatch implementation
//! is a designed extension point, deliberately not synthesized here.

use vstd::prelude::*;
use vstd::string::StringExecFns;
use crate::ast::{
    Generics, Span, TypeExpr, TypeX, clone_strings, deep_seq, generics_clone, render_sig, sig,
    strs_view, ty_clone,
};
use crate::error::{Error, ErrorX};
use crate::normalize::{ScopeSet, lemma_scopes_list_push, lifetimeify, norm_ty, scopes_list};

verus! {

broadcast use vstd::seq::group_seq_axioms, vstd::std_specs::vec::group_vec_axioms;

/// Mathematical view of the annotation.
pub struct InputAttrX {
    pub pat: Option<Seq<char>>,
    pub ty: TypeX,
    pub traits: Seq<Seq<char>>,
}

/// The annotation accompanying the function: an optional receiver binding
/// pattern, the receiver type to forward to, and the trait-bound list any
/// eventual receiver must satisfy.
pub struct InputAttr {
    pub pat: Option<String>,
    pub ty: TypeExpr,
    pub traits: Vec<String>,
}

impl InputAttr {
    pub open spec fn deep(self) -> InputAttrX {
        InputAttrX {
            pat: match self.pat {
                Some(p) => Some(p@),
                None => None,
            },
            ty: self.ty.deep(),
            traits: strs_view(self.traits@),
        }
    }
}

/// Mathematical view of one function parameter.
pub enum FnParamX {
    Typed { pat: Seq<char>, pat_span: Span, ty: TypeX, ty_span: Span },
    Receiver { ty: TypeX, span: Span },
}

/// One parameter of the annotated function: an ordinary typed binding, or
/// an implicit method receiver (an instance binding with no explicit
/// type), whose `ty` is the receiver's own type as the declaration spells
/// it.
pub enum FnParam {
    Typed { pat: String, pat_span: Span, ty: TypeExpr, ty_span: Span },
    Receiver { ty: TypeExpr, span: Span },
}

impl FnParam {
    pub open spec fn deep(self) -> FnParamX {
        match self {
            FnParam::Typed { pat, pat_span, ty, ty_span } => FnParamX::Typed {
                pat: pat@,
                pat_span,
                ty: ty.deep(),
                ty_span,
            },
            FnParam::Receiver { ty, span } => FnParamX::Receiver { ty: ty.deep(), span },
        }
    }
}

pub open spec fn params_view(s: Seq<FnParam>) -> Seq<FnParamX> {
    s.map_values(|p: FnParam| p.deep())
}

/// The annotated function's signature: its name, generic-parameter list,
/// parameters in original left-to-right order, and declared return type,
/// if any.
pub struct InputFn {
    pub name: String,
    pub generics: Generics,
    pub inputs: Vec<FnParam>,
    pub output: Option<TypeExpr>,
}

/// Mathematical view of one captured argument.
pub struct ArgX {
    pub pat: Seq<char>,
    pub ty: TypeX,
}

/// One captured argument: the original binding pattern and its type.
pub struct ArgEntry {
    pub pat: String,
    pub ty: TypeExpr,
}

impl ArgEntry {
    pub open spec fn deep(self) -> ArgX {
        ArgX { pat: self.pat@, ty: self.ty.deep() }
    }
}

pub open spec fn args_view(s: Seq<ArgEntry>) -> Seq<ArgX> {
    s.map_values(|a: ArgEntry| a.deep())
}

pub open spec fn args_tys(s: Seq<ArgX>) -> Seq<TypeX> {
    s.map_values(|a: ArgX| a.ty)
}

/// Mathematical view of the separated receiver.
pub struct RecvX {
    pub ty: TypeX,
    pub pat: Seq<char>,
}

/// The separated receiver argument: its type and binding pattern.
pub struct RecvEntry {
    pub ty: TypeExpr,
    pub pat: String,
}

impl RecvEntry {
    pub open spec fn deep(self) -> RecvX {
        RecvX { ty: self.ty.deep(), pat: self.pat@ }
    }
}

/// The canonical binding substituted for an implicit method receiver.
pub open spec fn self_pat() -> Seq<char> {
    "_self"@
}

/// The shared blanket scope tag threaded through one capture record.
pub open spec fn blanket_tag() -> Seq<char> {
    "_blanket"@
}

/// Mathematical view of a separation outcome.
pub struct SepX {
    pub receiver: Option<RecvX>,
    pub args: Seq<ArgX>,
}

/// What separating the receiver from the parameter suffix `inputs` yields,
/// walking parameters from last to first. A typed parameter matching the
/// declared receiver pattern and type — both — becomes the receiver; one
/// matching exactly one of the two is a contradiction and fails with
/// `MismatchedArgType` at the non-matching part's position; any other
/// typed parameter is captured, preserving original order. An implicit
/// method receiver is taken as the receiver under the declared receiver
/// type if none was found yet, and is otherwise captured under the
/// canonical `_self` binding with its own declared type.
pub open spec fn sep_model(attr: InputAttrX, inputs: Seq<FnParamX>) -> Result<SepX, ErrorX>
    decreases inputs.len(),
{
    if inputs.len() == 0 {
        Ok(SepX { receiver: None, args: Seq::empty() })
    } else {
        match sep_model(attr, inputs.drop_first()) {
            Err(e) => Err(e),
            Ok(st) => match inputs[0] {
                FnParamX::Typed { pat, pat_span, ty, ty_span } => {
                    let pm = attr.pat == Some(pat);
                    let tm = sig(ty) == sig(attr.ty);
                    if pm && tm {
                        Ok(SepX { receiver: Some(RecvX { ty, pat }), args: st.args })
                    } else if pm {
                        Err(ErrorX::MismatchedArgType(ty_span))
                    } else if tm {
                        Err(ErrorX::MismatchedArgType(pat_span))
                    } else {
                        Ok(SepX { receiver: st.receiver, args: seq![ArgX { pat, ty }] + st.args })
                    }
                },
                FnParamX::Receiver { ty, span } => {
                    if st.receiver is None {
                        Ok(
                            SepX {
                                receiver: Some(RecvX { ty: attr.ty, pat: self_pat() }),
                                args: st.args,
                            },
                        )
                    } else {
                        Ok(
                            SepX {
                                receiver: st.receiver,
                                args: seq![ArgX { pat: self_pat(), ty }] + st.args,
                            },
                        )
                    }
                },
            },
        }
    }
}

pub open spec fn recv_matches(r: Option<RecvEntry>, x: Option<RecvX>) -> bool {
    match (r, x) {
        (Some(a), Some(b)) => a.deep() == b,
        (None, None) => true,
        _ => false,
    }
}

proof fn lemma_sep_err_stable(attr: InputAttrX, inputs: Seq<FnParamX>, j: int, i: int)
    requires
        0 <= j <= i <= inputs.len(),
        sep_model(attr, inputs.skip(i)) is Err,
    ensures
        sep_model(attr, inputs.skip(j)) == sep_model(attr, inputs.skip(i)),
    decreases i - j,
{
    if j < i {
        lemma_sep_err_stable(attr, inputs, j + 1, i);
        assert(inputs.skip(j).drop_first() =~= inputs.skip(j + 1));
        assert(inputs.skip(j).len() > 0);
    }
}

/// Walks the parameters from last to first, separating the receiver
/// argument from the captured arguments, which keep their original
/// left-to-right order.
#[verifier::loop_isolation(false)]
pub fn separate_receiver(attr: &InputAttr, inputs: &Vec<FnParam>) -> (r: Result<
    (Option<RecvEntry>, Vec<ArgEntry>),
    Error,
>)
    ensures
        match (r, sep_model(attr.deep(), params_view(inputs@))) {
            (Ok(p), Ok(sx)) => recv_matches(p.0, sx.receiver) && args_view(p.1@) == sx.args,
            (Err(e), Err(ex)) => e.deep() == ex,
            _ => false,
        },
{
    let ghost pview = params_view(inputs@);
    let mut receiver: Option<RecvEntry> = None;
    let mut args: Vec<ArgEntry> = Vec::new();
    let mut i: usize = inputs.len();
    while i > 0
        invariant
            i <= inputs@.len(),
            sep_model(attr.deep(), pview.skip(i as int)) is Ok,
            recv_matches(receiver, sep_model(attr.deep(), pview.skip(i as int))->Ok_0.receiver),
            args_view(args@) == sep_model(attr.deep(), pview.skip(i as int))->Ok_0.args,
        decreases i,
    {
        i = i - 1;
        proof {
            assert(pview.skip(i as int).drop_first() =~= pview.skip(i as int + 1));
            assert(pview.skip(i as int)[0] == inputs@[i as int].deep());
        }
        match &inputs[i] {
            FnParam::Typed { pat, pat_span, ty, ty_span } => {
                let pm: bool = match &attr.pat {
                    Some(ap) => ap.eq(pat),
                    None => false,
                };
                let st = render_sig(ty);
                let sa = render_sig(&attr.ty);
                let tm: bool = st.eq(&sa);
                if pm && tm {
                    receiver = Some(RecvEntry { ty: ty_clone(ty), pat: pat.clone() });
                } else if pm {
                    proof {
                        lemma_sep_err_stable(attr.deep(), pview, 0, i as int);
                        assert(pview.skip(0) =~= pview);
                    }
                    return Err(Error::MismatchedArgType(*ty_span));
                } else if tm {
                    proof {
                        lemma_sep_err_stable(attr.deep(), pview, 0, i as int);
                        assert(pview.skip(0) =~= pview);
                    }
                    return Err(Error::MismatchedArgType(*pat_span));
                } else {
                    args.insert(0, ArgEntry { pat: pat.clone(), ty: ty_clone(ty) });
                    proof {
                        assert(args_view(args@) =~= seq![
                            ArgX { pat: pat@, ty: ty.deep() },
                        ] + sep_model(attr.deep(), pview.skip(i as int + 1))->Ok_0.args);
                    }
                }
            },
            FnParam::Receiver { ty, span } => {
                if receiver.is_none() {
                    receiver = Some(
                        RecvEntry { ty: ty_clone(&attr.ty), pat: String::from_str("_self") },
                    );
                } else {
                    args.insert(0, ArgEntry { pat: String::from_str("_self"), ty: ty_clone(ty) });
                    proof {
                        assert(args_view(args@) =~= seq![
                            ArgX { pat: self_pat(), ty: ty.deep() },
                        ] + sep_model(attr.deep(), pview.skip(i as int + 1))->Ok_0.args);
                    }
                }
            },
        }
    }
    proof {
        assert(pview.skip(0) =~= pview);
    }
    Ok((receiver, args))
}

/// The synthesized capture record: a fresh aggregate named after the
/// function, holding the captured arguments under their original bound
/// names with their reference scopes normalized to the blanket tag; it is
/// parameterized by the function's own generic parameters plus the blanket
/// scope tag, and `scopes` records every scope tag the normalization
/// encountered, the blanket tag included.
pub struct CaptureRecord {
    pub name: String,
    pub generics: Generics,
    pub blanket: String,
    pub fields: Vec<ArgEntry>,
    pub scopes: ScopeSet,
}

/// The synthesized blanket forwarding-contract implementation: any type
/// bound by `bound_param` that satisfies the annotation's trait-bound list
/// accepts the capture record as input and produces the function's
/// declared return type as output.
pub struct BlanketImpl {
    pub bound_param: String,
    pub traits: Vec<String>,
    pub input_ty: String,
    pub result_ty: TypeExpr,
}

/// Everything the synthesis produces for one annotated signature.
pub struct CaptureOutput {
    pub receiver: Option<RecvEntry>,
    pub record: CaptureRecord,
    pub blanket_impl: BlanketImpl,
}

/// Builds the blanket forwarding-contract implementation: a fresh type
/// parameter `B`, bound by the annotation's trait-bound list, that takes
/// the capture record as input and returns the function's result type.
pub fn impl_forward_variants(
    input_ty: &String,
    result_ty: &TypeExpr,
    trait_bounds: &Vec<String>,
) -> (r: BlanketImpl)
    ensures
        r.bound_param@ == "B"@,
        r.traits@ == trait_bounds@,
        r.input_ty@ == input_ty@,
        r.result_ty.deep() == result_ty.deep(),
{
    BlanketImpl {
        bound_param: String::from_str("B"),
        traits: clone_strings(trait_bounds),
        input_ty: input_ty.clone(),
        result_ty: ty_clone(result_ty),
    }
}

/// The declared return type of the function, a unit tuple if it declares
/// none.
pub open spec fn result_ty_model(output: Option<TypeExpr>) -> TypeX {
    match output {
        Some(t) => t.deep(),
        None => TypeX::Tuple(Seq::empty()),
    }
}

/// Synthesizes, for an annotated function signature, the capture record
/// and the blanket forwarding-contract implementation. Fails exactly where
/// receiver separation fails.
#[verifier::loop_isolation(false)]
pub fn forward_to(attr: &InputAttr, func: &InputFn) -> (r: Result<CaptureOutput, Error>)
    ensures
        r is Ok <==> sep_model(attr.deep(), params_view(func.inputs@)) is Ok,
        r is Err ==> r->Err_0.deep() == sep_model(attr.deep(), params_view(func.inputs@))->Err_0,
        r is Ok ==> ({
            let sx = sep_model(attr.deep(), params_view(func.inputs@))->Ok_0;
            let out = r->Ok_0;
            &&& recv_matches(out.receiver, sx.receiver)
            &&& out.record.name@ == func.name@ + "Visitor"@
            &&& out.record.generics.deep() == func.generics.deep()
            &&& out.record.blanket@ == blanket_tag()
            &&& out.record.fields@.len() == sx.args.len()
            &&& forall|j: int|
                0 <= j < sx.args.len() ==> (#[trigger] out.record.fields@[j]).deep() == (ArgX {
                    pat: sx.args[j].pat,
                    ty: norm_ty(sx.args[j].ty, blanket_tag()),
                })
            &&& out.record.scopes.set_view() == Set::<Seq<char>>::empty().insert(
                blanket_tag(),
            ).union(scopes_list(args_tys(sx.args), blanket_tag()))
            &&& out.blanket_impl.bound_param@ == "B"@
            &&& out.blanket_impl.traits@ == attr.traits@
            &&& out.blanket_impl.input_ty@ == out.record.name@
            &&& out.blanket_impl.result_ty.deep() == result_ty_model(func.output)
        }),
{
    let sep = separate_receiver(attr, &func.inputs);
    let (receiver, args) = match sep {
        Err(e) => {
            return Err(e);
        },
        Ok(p) => p,
    };
    let ghost sx = sep_model(attr.deep(), params_view(func.inputs@))->Ok_0;
    let blanket = String::from_str("_blanket");
    let mut scopes = ScopeSet::new();
    scopes.insert(blanket.clone());
    proof {
        assert(scopes.set_view() =~= Set::<Seq<char>>::empty().insert(blanket_tag()));
    }
    let mut fields: Vec<ArgEntry> = Vec::new();
    let mut i: usize = 0;
    while i < args.len()
        invariant
            i <= args@.len(),
            scopes.wf(),
            fields@.len() == i,
            forall|j: int|
                0 <= j < i ==> (#[trigger] fields@[j]).deep() == (ArgX {
                    pat: sx.args[j].pat,
                    ty: norm_ty(sx.args[j].ty, blanket_tag()),
                }),
            scopes.set_view() == Set::<Seq<char>>::empty().insert(blanket_tag()).union(
                scopes_list(args_tys(sx.args).subrange(0, i as int), blanket_tag()),
            ),
        decreases args@.len() - i,
    {
        let a = &args[i];
        proof {
            assert(args_view(args@)[i as int] == a.deep());
            assert(args_tys(sx.args)[i as int] == sx.args[i as int].ty);
        }
        let nty = lifetimeify(&a.ty, &blanket, &mut scopes);
        fields.push(ArgEntry { pat: a.pat.clone(), ty: nty });
        proof {
            lemma_scopes_list_push(
                args_tys(sx.args).subrange(0, i as int),
                args_tys(sx.args)[i as int],
                blanket_tag(),
            );
            assert(args_tys(sx.args).subrange(0, i as int).push(args_tys(sx.args)[i as int])
                =~= args_tys(sx.args).subrange(0, i as int + 1));
            assert(scopes.set_view() =~= Set::<Seq<char>>::empty().insert(blanket_tag()).union(
                scopes_list(args_tys(sx.args).subrange(0, i as int + 1), blanket_tag()),
            ));
        }
        i = i + 1;
    }
    proof {
        assert(args_tys(sx.args).subrange(0, args@.len() as int) =~= args_tys(sx.args));
    }
    let mut record_name = func.name.clone();
    record_name.append("Visitor");
    let result_ty: TypeExpr = match &func.output {
        Some(t) => ty_clone(t),
        None => {
            let unit = TypeExpr::Tuple(Vec::new());
            proof {
                assert(deep_seq(Seq::<TypeExpr>::empty()) =~= Seq::<TypeX>::empty());
            }
            unit
        },
    };
    let blanket_impl = impl_forward_variants(&record_name, &result_ty, &attr.traits);
    Ok(
        CaptureOutput {
            receiver,
            record: CaptureRecord {
                name: record_name,
                generics: generics_clone(&func.generics),
                blanket,
                fields,
                scopes,
            },
            blanket_impl,
        },
    )
}

} // verus!
