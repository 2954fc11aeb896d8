//! The Reference-Scope Normalizer: rewrites a type expression so every
//! embedded reference that lacks an explicit validity-scope tag receives
//! the caller-supplied shared "blanket" tag, while recording the set of
//! distinct scope tags encountered, explicit or blanket.

use vstd::prelude::*;
use crate::ast::{TypeExpr, TypeX, deep_seq};

verus! {

broadcast use vstd::seq::group_seq_axioms, vstd::std_specs::vec::group_vec_axioms;

/// The set of distinct reference-scope tags collected while normalizing,
/// kept in first-recorded order without duplicates.
pub struct ScopeSet {
    pub tags: Vec<String>,
}

impl ScopeSet {
    /// Whether the tag `t` has been recorded.
    pub open spec fn has_tag(self, t: Seq<char>) -> bool {
        exists|i: int| 0 <= i < self.tags@.len() && self.tags@[i]@ == t
    }

    /// The recorded tags, as a set.
    pub open spec fn set_view(self) -> Set<Seq<char>> {
        Set::new(|t: Seq<char>| self.has_tag(t))
    }

    /// No tag is recorded twice.
    pub open spec fn wf(self) -> bool {
        forall|i: int, j: int|
            0 <= i < j < self.tags@.len() ==> self.tags@[i]@ != self.tags@[j]@
    }

    pub fn new() -> (r: ScopeSet)
        ensures
            r.wf(),
            r.set_view() == Set::<Seq<char>>::empty(),
            r.tags@.len() == 0,
    {
        let r = ScopeSet { tags: Vec::new() };
        proof {
            assert(r.set_view() =~= Set::<Seq<char>>::empty());
        }
        r
    }

    pub fn contains_tag(&self, t: &String) -> (r: bool)
        ensures
            r == self.has_tag(t@),
    {
        let mut i: usize = 0;
        while i < self.tags.len()
            invariant
                i <= self.tags@.len(),
                forall|j: int| 0 <= j < i ==> self.tags@[j]@ != t@,
            decreases self.tags@.len() - i,
        {
            if self.tags[i].eq(t) {
                return true;
            }
            i = i + 1;
        }
        false
    }

    /// Records a tag; a tag already recorded is not recorded again.
    pub fn insert(&mut self, t: String)
        requires
            old(self).wf(),
        ensures
            final(self).wf(),
            final(self).set_view() == old(self).set_view().insert(t@),
            old(self).has_tag(t@) ==> final(self).tags@ == old(self).tags@,
            !old(self).has_tag(t@) ==> final(self).tags@ == old(self).tags@.push(t),
    {
        let ghost tv = t@;
        if !self.contains_tag(&t) {
            self.tags.push(t);
            proof {
                assert(self.tags@ == old(self).tags@.push(t));
                assert forall|i: int, j: int|
                    0 <= i < j < self.tags@.len() implies self.tags@[i]@ != self.tags@[j]@ by {
                    if j == self.tags@.len() - 1 {
                        assert(self.tags@[j]@ == tv);
                        assert(self.tags@[i] == old(self).tags@[i]);
                    } else {
                        assert(self.tags@[i] == old(self).tags@[i]);
                        assert(self.tags@[j] == old(self).tags@[j]);
                    }
                }
                assert forall|x: Seq<char>| self.has_tag(x) implies old(self).has_tag(x) || x
                    == tv by {
                    let i = choose|i: int| 0 <= i < self.tags@.len() && self.tags@[i]@ == x;
                    if i < self.tags@.len() - 1 {
                        assert(old(self).tags@[i]@ == x);
                    }
                }
                assert forall|x: Seq<char>| old(self).has_tag(x) || x == tv implies self.has_tag(
                    x,
                ) by {
                    if old(self).has_tag(x) {
                        let i = choose|i: int|
                            0 <= i < old(self).tags@.len() && old(self).tags@[i]@ == x;
                        assert(self.tags@[i]@ == x);
                    } else {
                        assert(self.tags@[self.tags@.len() - 1]@ == x);
                    }
                }
                assert(self.set_view() =~= old(self).set_view().insert(tv));
            }
        } else {
            proof {
                assert(self.set_view() =~= old(self).set_view().insert(tv));
            }
        }
    }
}

/// The normalized form of a type expression: every reference that lacks a
/// scope tag receives the blanket tag; everything else is unchanged.
pub open spec fn norm_ty(t: TypeX, blanket: Seq<char>) -> TypeX
    decreases t,
{
    match t {
        TypeX::Path(s) => TypeX::Path(s),
        TypeX::Array(e, l) => TypeX::Array(Box::new(norm_ty(*e, blanket)), l),
        TypeX::Group(e) => TypeX::Group(Box::new(norm_ty(*e, blanket))),
        TypeX::Paren(e) => TypeX::Paren(Box::new(norm_ty(*e, blanket))),
        TypeX::Ptr(m, e) => TypeX::Ptr(m, Box::new(norm_ty(*e, blanket))),
        TypeX::Ref(o, m, e) => TypeX::Ref(
            Some(
                match o {
                    Some(l) => l,
                    None => blanket,
                },
            ),
            m,
            Box::new(norm_ty(*e, blanket)),
        ),
        TypeX::Slice(e) => TypeX::Slice(Box::new(norm_ty(*e, blanket))),
        TypeX::Tuple(s) => TypeX::Tuple(norm_list(s, blanket)),
    }
}

pub open spec fn norm_list(s: Seq<TypeX>, blanket: Seq<char>) -> Seq<TypeX>
    decreases s,
{
    Seq::new(
        s.len(),
        |i: int|
            if 0 <= i < s.len() {
                norm_ty(s[i], blanket)
            } else {
                TypeX::Tuple(Seq::empty())
            },
    )
}

/// The scope tags a normalization pass over `t` records: each explicit tag
/// encountered, and the blanket tag wherever a reference lacked one.
pub open spec fn ty_scopes(t: TypeX, blanket: Seq<char>) -> Set<Seq<char>>
    decreases t,
{
    match t {
        TypeX::Path(_) => Set::empty(),
        TypeX::Array(e, _) => ty_scopes(*e, blanket),
        TypeX::Group(e) => ty_scopes(*e, blanket),
        TypeX::Paren(e) => ty_scopes(*e, blanket),
        TypeX::Ptr(_, e) => ty_scopes(*e, blanket),
        TypeX::Ref(o, _, e) => ty_scopes(*e, blanket).insert(
            match o {
                Some(l) => l,
                None => blanket,
            },
        ),
        TypeX::Slice(e) => ty_scopes(*e, blanket),
        TypeX::Tuple(s) => scopes_list(s, blanket),
    }
}

pub open spec fn scopes_list(s: Seq<TypeX>, blanket: Seq<char>) -> Set<Seq<char>>
    decreases s,
{
    if s.len() == 0 {
        Set::empty()
    } else {
        ty_scopes(s[0], blanket).union(scopes_list(s.drop_first(), blanket))
    }
}

pub proof fn lemma_scopes_list_push(s: Seq<TypeX>, x: TypeX, blanket: Seq<char>)
    ensures
        scopes_list(s.push(x), blanket) == scopes_list(s, blanket).union(ty_scopes(x, blanket)),
    decreases s.len(),
{
    if s.len() == 0 {
        assert(s.push(x).drop_first() =~= Seq::<TypeX>::empty());
        assert(s.push(x)[0] == x);
        assert(scopes_list(Seq::<TypeX>::empty(), blanket) == Set::<Seq<char>>::empty());
        assert(scopes_list(s, blanket) == Set::<Seq<char>>::empty());
        assert(scopes_list(s.push(x), blanket) =~= scopes_list(s, blanket).union(
            ty_scopes(x, blanket),
        ));
    } else {
        assert(s.push(x)[0] == s[0]);
        assert(s.push(x).drop_first() =~= s.drop_first().push(x));
        lemma_scopes_list_push(s.drop_first(), x, blanket);
        assert(scopes_list(s.push(x), blanket) =~= scopes_list(s, blanket).union(
            ty_scopes(x, blanket),
        ));
    }
}

/// Rewrites `ty` so every reference carries a scope tag, substituting
/// `blanket` where one was absent, and records every tag encountered in
/// `lifetimes`.
#[verifier::loop_isolation(false)]
pub fn lifetimeify(ty: &TypeExpr, blanket: &String, lifetimes: &mut ScopeSet) -> (r: TypeExpr)
    requires
        old(lifetimes).wf(),
    ensures
        final(lifetimes).wf(),
        r.deep() == norm_ty(ty.deep(), blanket@),
        final(lifetimes).set_view() == old(lifetimes).set_view().union(
            ty_scopes(ty.deep(), blanket@),
        ),
    decreases ty,
{
    let r = match ty {
        TypeExpr::Path(s) => TypeExpr::Path(s.clone()),
        TypeExpr::Array(e, l) => TypeExpr::Array(
            Box::new(lifetimeify(&**e, blanket, lifetimes)),
            l.clone(),
        ),
        TypeExpr::Group(e) => TypeExpr::Group(Box::new(lifetimeify(&**e, blanket, lifetimes))),
        TypeExpr::Paren(e) => TypeExpr::Paren(Box::new(lifetimeify(&**e, blanket, lifetimes))),
        TypeExpr::Ptr(m, e) => TypeExpr::Ptr(*m, Box::new(lifetimeify(&**e, blanket, lifetimes))),
        TypeExpr::Ref(o, m, e) => {
            let tag: String = match o {
                Some(l) => l.clone(),
                None => blanket.clone(),
            };
            lifetimes.insert(tag.clone());
            TypeExpr::Ref(Some(tag), *m, Box::new(lifetimeify(&**e, blanket, lifetimes)))
        },
        TypeExpr::Slice(e) => TypeExpr::Slice(Box::new(lifetimeify(&**e, blanket, lifetimes))),
        TypeExpr::Tuple(v) => {
            let mut out: Vec<TypeExpr> = Vec::new();
            let mut i: usize = 0;
            while i < v.len()
                invariant
                    i <= v@.len(),
                    out@.len() == i,
                    lifetimes.wf(),
                    forall|j: int|
                        0 <= j < i ==> out@[j].deep() == norm_ty(deep_seq(v@)[j], blanket@),
                    lifetimes.set_view() == old(lifetimes).set_view().union(
                        scopes_list(deep_seq(v@).subrange(0, i as int), blanket@),
                    ),
                decreases v@.len() - i,
            {
                let e = lifetimeify(&v[i], blanket, lifetimes);
                out.push(e);
                proof {
                    lemma_scopes_list_push(
                        deep_seq(v@).subrange(0, i as int),
                        deep_seq(v@)[i as int],
                        blanket@,
                    );
                    assert(deep_seq(v@).subrange(0, i as int).push(deep_seq(v@)[i as int]) =~= deep_seq(
                        v@,
                    ).subrange(0, i as int + 1));
                    assert(lifetimes.set_view() =~= old(lifetimes).set_view().union(
                        scopes_list(deep_seq(v@).subrange(0, i as int + 1), blanket@),
                    ));
                }
                i = i + 1;
            }
            proof {
                assert(deep_seq(v@).subrange(0, v@.len() as int) =~= deep_seq(v@));
                assert(deep_seq(out@) =~= norm_list(deep_seq(v@), blanket@));
            }
            TypeExpr::Tuple(out)
        },
    };
    proof {
        assert(lifetimes.set_view() =~= old(lifetimes).set_view().union(
            ty_scopes(ty.deep(), blanket@),
        ));
    }
    r
}

/// Whether every reference inside `t` carries an explicit scope tag.
pub open spec fn fully_scoped(t: TypeX) -> bool
    decreases t,
{
    match t {
        TypeX::Path(_) => true,
        TypeX::Array(e, _) => fully_scoped(*e),
        TypeX::Group(e) => fully_scoped(*e),
        TypeX::Paren(e) => fully_scoped(*e),
        TypeX::Ptr(_, e) => fully_scoped(*e),
        TypeX::Ref(o, _, e) => o is Some && fully_scoped(*e),
        TypeX::Slice(e) => fully_scoped(*e),
        TypeX::Tuple(s) => all_fully_scoped(s),
    }
}

pub open spec fn all_fully_scoped(s: Seq<TypeX>) -> bool
    decreases s,
{
    forall|i: int| 0 <= i < s.len() ==> fully_scoped(#[trigger] s[i])
}

proof fn lemma_norm_properties(t: TypeX, blanket: Seq<char>)
    ensures
        fully_scoped(norm_ty(t, blanket)),
        fully_scoped(t) ==> norm_ty(t, blanket) == t,
        ty_scopes(norm_ty(t, blanket), blanket) == ty_scopes(t, blanket),
    decreases t,
{
    match t {
        TypeX::Path(_) => {},
        TypeX::Array(e, _) => {
            lemma_norm_properties(*e, blanket);
        },
        TypeX::Group(e) => {
            lemma_norm_properties(*e, blanket);
        },
        TypeX::Paren(e) => {
            lemma_norm_properties(*e, blanket);
        },
        TypeX::Ptr(_, e) => {
            lemma_norm_properties(*e, blanket);
        },
        TypeX::Ref(o, _, e) => {
            lemma_norm_properties(*e, blanket);
        },
        TypeX::Slice(e) => {
            lemma_norm_properties(*e, blanket);
        },
        TypeX::Tuple(s) => {
            lemma_norm_properties_list(s, blanket);
        },
    }
}

proof fn lemma_norm_properties_list(s: Seq<TypeX>, blanket: Seq<char>)
    ensures
        all_fully_scoped(norm_list(s, blanket)),
        all_fully_scoped(s) ==> norm_list(s, blanket) =~= s,
        scopes_list(norm_list(s, blanket), blanket) == scopes_list(s, blanket),
    decreases s,
{
    if s.len() == 0 {
        assert(norm_list(s, blanket) =~= s);
    } else {
        lemma_norm_properties(s[0], blanket);
        lemma_norm_properties_list(s.drop_first(), blanket);
        assert(norm_list(s, blanket)[0] == norm_ty(s[0], blanket));
        assert(norm_list(s, blanket).drop_first() =~= norm_list(s.drop_first(), blanket));
        assert forall|i: int| 0 <= i < norm_list(s, blanket).len() implies fully_scoped(
            #[trigger] norm_list(s, blanket)[i],
        ) by {
            if i == 0 {
            } else {
                assert(norm_list(s, blanket)[i] == norm_list(s.drop_first(), blanket)[i - 1]);
            }
        }
        if all_fully_scoped(s) {
            assert(fully_scoped(s[0]));
            assert forall|i: int| 0 <= i < s.drop_first().len() implies fully_scoped(
                #[trigger] s.drop_first()[i],
            ) by {
                assert(s.drop_first()[i] == s[i + 1]);
            }
            assert(all_fully_scoped(s.drop_first()));
            assert forall|i: int| 0 <= i < s.len() implies norm_list(s, blanket)[i] == s[i] by {
                if i > 0 {
                    assert(norm_list(s.drop_first(), blanket)[i - 1] == norm_ty(s[i], blanket));
                    assert(norm_list(s.drop_first(), blanket)[i - 1] == s.drop_first()[i - 1]);
                    assert(s.drop_first()[i - 1] == s[i]);
                }
            }
            assert(norm_list(s, blanket) =~= s);
        }
    }
}

/// Law: reference-scope normalization is idempotent. Normalizing a type
/// expression a second time with the same blanket tag yields the identical
/// result, and the second pass records exactly the scope set the first
/// pass recorded; in particular, normalizing an already-fully-scoped type
/// expression leaves it unchanged.
pub proof fn lemma_normalize_idempotent(t: TypeX, blanket: Seq<char>)
    ensures
        norm_ty(norm_ty(t, blanket), blanket) == norm_ty(t, blanket),
        ty_scopes(norm_ty(t, blanket), blanket) == ty_scopes(t, blanket),
        fully_scoped(t) ==> norm_ty(t, blanket) == t,
{
    lemma_norm_properties(t, blanket);
    lemma_norm_properties(norm_ty(t, blanket), blanket);
}

} // verus!
