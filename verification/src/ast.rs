//! Data model of the engine: type expressions, sum-type declarations,
//! and their mathematical views.

use vstd::prelude::*;
use vstd::string::StringExecFns;

verus! {

broadcast use vstd::seq::group_seq_axioms, vstd::std_specs::vec::group_vec_axioms;

/// A half-open region of the host's source text, carried through for
/// diagnostics.
#[derive(Clone, Copy, PartialEq, Eq, Structural, Debug)]
pub struct Span {
    pub lo: usize,
    pub hi: usize,
}

/// Mathematical model of a type expression tree.
pub enum TypeX {
    /// A named nominal type, treated as an opaque leaf.
    Path(Seq<char>),
    /// An array type: element type and the length expression's text.
    Array(Box<TypeX>, Seq<char>),
    /// An invisible grouping around a type.
    Group(Box<TypeX>),
    /// A parenthesized type.
    Paren(Box<TypeX>),
    /// A raw pointer type; the flag says whether it is a mutable pointer.
    Ptr(bool, Box<TypeX>),
    /// A reference type: optional validity-scope tag, mutability, referent.
    Ref(Option<Seq<char>>, bool, Box<TypeX>),
    /// A slice type.
    Slice(Box<TypeX>),
    /// A tuple type.
    Tuple(Seq<TypeX>),
}

/// Executable type expression tree; its view is a `TypeX`.
pub enum TypeExpr {
    Path(String),
    Array(Box<TypeExpr>, String),
    Group(Box<TypeExpr>),
    Paren(Box<TypeExpr>),
    Ptr(bool, Box<TypeExpr>),
    Ref(Option<String>, bool, Box<TypeExpr>),
    Slice(Box<TypeExpr>),
    Tuple(Vec<TypeExpr>),
}

pub open spec fn opt_tag_view(o: Option<String>) -> Option<Seq<char>> {
    match o {
        Some(s) => Some(s@),
        None => None,
    }
}

/// Views of the elements of a sequence of type expressions.
pub open spec fn deep_seq(s: Seq<TypeExpr>) -> Seq<TypeX>
    decreases s,
{
    Seq::new(
        s.len(),
        |i: int|
            if 0 <= i < s.len() {
                s[i].deep()
            } else {
                TypeX::Tuple(Seq::empty())
            },
    )
}

impl TypeExpr {
    /// The mathematical value of this type expression.
    pub open spec fn deep(self) -> TypeX
        decreases self,
    {
        match self {
            TypeExpr::Path(s) => TypeX::Path(s@),
            TypeExpr::Array(e, l) => TypeX::Array(Box::new(e.deep()), l@),
            TypeExpr::Group(e) => TypeX::Group(Box::new(e.deep())),
            TypeExpr::Paren(e) => TypeX::Paren(Box::new(e.deep())),
            TypeExpr::Ptr(m, e) => TypeX::Ptr(m, Box::new(e.deep())),
            TypeExpr::Ref(o, m, e) => TypeX::Ref(opt_tag_view(o), m, Box::new(e.deep())),
            TypeExpr::Slice(e) => TypeX::Slice(Box::new(e.deep())),
            TypeExpr::Tuple(v) => TypeX::Tuple(deep_seq(v@)),
        }
    }
}

/// The canonical signature of a type expression: a structural,
/// whitespace-insensitive textual identity, used to test two type
/// expressions for being "the same type".
pub open spec fn sig(t: TypeX) -> Seq<char>
    decreases t,
{
    match t {
        TypeX::Path(s) => s,
        TypeX::Array(e, l) => "["@ + sig(*e) + ";"@ + l + "]"@,
        TypeX::Group(e) => sig(*e),
        TypeX::Paren(e) => "("@ + sig(*e) + ")"@,
        TypeX::Ptr(m, e) => (if m {
            "*mut "@
        } else {
            "*const "@
        }) + sig(*e),
        TypeX::Ref(o, m, e) => "&"@ + (match o {
            Some(l) => "'"@ + l + " "@,
            None => Seq::empty(),
        }) + (if m {
            "mut "@
        } else {
            Seq::empty()
        }) + sig(*e),
        TypeX::Slice(e) => "["@ + sig(*e) + "]"@,
        TypeX::Tuple(s) => "("@ + sig_list(s) + ")"@,
    }
}

/// Signatures of tuple elements, each followed by a comma.
pub open spec fn sig_list(s: Seq<TypeX>) -> Seq<char>
    decreases s,
{
    if s.len() == 0 {
        Seq::empty()
    } else {
        sig(s[0]) + ","@ + sig_list(s.drop_first())
    }
}

proof fn lemma_sig_list_push(s: Seq<TypeX>, x: TypeX)
    ensures
        sig_list(s.push(x)) == sig_list(s) + sig(x) + ","@,
    decreases s.len(),
{
    if s.len() == 0 {
        assert(s.push(x).drop_first() =~= Seq::<TypeX>::empty());
        assert(s.push(x)[0] == x);
        assert(sig_list(Seq::<TypeX>::empty()) == Seq::<char>::empty());
        assert(sig_list(s) == Seq::<char>::empty());
        assert(sig_list(s.push(x)) == sig(x) + ","@ + Seq::<char>::empty());
        assert(sig_list(s.push(x)) =~= sig_list(s) + sig(x) + ","@);
    } else {
        assert(s.push(x).drop_first() =~= s.drop_first().push(x));
        lemma_sig_list_push(s.drop_first(), x);
        assert(sig_list(s.push(x)) =~= sig_list(s) + sig(x) + ","@);
    }
}

fn opt_tag_clone(o: &Option<String>) -> (r: Option<String>)
    ensures
        r == *o,
{
    match o {
        Some(s) => Some(s.clone()),
        None => None,
    }
}

/// Structural copy of a type expression, equal in view to the original.
#[verifier::loop_isolation(false)]
pub fn ty_clone(t: &TypeExpr) -> (r: TypeExpr)
    ensures
        r.deep() == t.deep(),
    decreases t,
{
    match t {
        TypeExpr::Path(s) => TypeExpr::Path(s.clone()),
        TypeExpr::Array(e, l) => TypeExpr::Array(Box::new(ty_clone(&**e)), l.clone()),
        TypeExpr::Group(e) => TypeExpr::Group(Box::new(ty_clone(&**e))),
        TypeExpr::Paren(e) => TypeExpr::Paren(Box::new(ty_clone(&**e))),
        TypeExpr::Ptr(m, e) => TypeExpr::Ptr(*m, Box::new(ty_clone(&**e))),
        TypeExpr::Ref(o, m, e) => TypeExpr::Ref(opt_tag_clone(o), *m, Box::new(ty_clone(&**e))),
        TypeExpr::Slice(e) => TypeExpr::Slice(Box::new(ty_clone(&**e))),
        TypeExpr::Tuple(v) => {
            let mut out: Vec<TypeExpr> = Vec::new();
            let mut i: usize = 0;
            while i < v.len()
                invariant
                    i <= v@.len(),
                    out@.len() == i,
                    forall|j: int| 0 <= j < i ==> out@[j].deep() == deep_seq(v@)[j],
                decreases v@.len() - i,
            {
                out.push(ty_clone(&v[i]));
                i = i + 1;
            }
            proof {
                assert(deep_seq(out@) =~= deep_seq(v@));
            }
            TypeExpr::Tuple(out)
        },
    }
}

/// Renders the canonical signature of a type expression.
#[verifier::loop_isolation(false)]
pub fn render_sig(t: &TypeExpr) -> (r: String)
    ensures
        r@ == sig(t.deep()),
    decreases t,
{
    match t {
        TypeExpr::Path(s) => s.clone(),
        TypeExpr::Array(e, l) => {
            let mut r = String::from_str("[");
            r.append(render_sig(&**e).as_str());
            r.append(";");
            r.append(l.as_str());
            r.append("]");
            r
        },
        TypeExpr::Group(e) => render_sig(&**e),
        TypeExpr::Paren(e) => {
            let mut r = String::from_str("(");
            r.append(render_sig(&**e).as_str());
            r.append(")");
            r
        },
        TypeExpr::Ptr(m, e) => {
            let mut r = if *m {
                String::from_str("*mut ")
            } else {
                String::from_str("*const ")
            };
            r.append(render_sig(&**e).as_str());
            r
        },
        TypeExpr::Ref(o, m, e) => {
            let mut r = String::from_str("&");
            match o {
                Some(l) => {
                    r.append("'");
                    r.append(l.as_str());
                    r.append(" ");
                },
                None => {},
            }
            if *m {
                r.append("mut ");
            }
            r.append(render_sig(&**e).as_str());
            r
        },
        TypeExpr::Slice(e) => {
            let mut r = String::from_str("[");
            r.append(render_sig(&**e).as_str());
            r.append("]");
            r
        },
        TypeExpr::Tuple(v) => {
            let mut r = String::from_str("(");
            let mut i: usize = 0;
            while i < v.len()
                invariant
                    i <= v@.len(),
                    r@ == "("@ + sig_list(deep_seq(v@).subrange(0, i as int)),
                decreases v@.len() - i,
            {
                let e = render_sig(&v[i]);
                r.append(e.as_str());
                r.append(",");
                proof {
                    lemma_sig_list_push(deep_seq(v@).subrange(0, i as int), deep_seq(v@)[i as int]);
                    assert(deep_seq(v@).subrange(0, i as int).push(deep_seq(v@)[i as int]) =~= deep_seq(
                        v@,
                    ).subrange(0, i as int + 1));
                }
                i = i + 1;
            }
            proof {
                assert(deep_seq(v@).subrange(0, v@.len() as int) =~= deep_seq(v@));
            }
            r.append(")");
            r
        },
    }
}

/// Mathematical view of a generic-parameter list.
pub struct GenericsX {
    pub params: Seq<Seq<char>>,
    pub wheres: Seq<Seq<char>>,
}

/// A generic-parameter list and its auxiliary where-constraints, carried
/// through synthesis as opaque text, unchanged.
pub struct Generics {
    pub params: Vec<String>,
    pub wheres: Vec<String>,
}

pub open spec fn strs_view(s: Seq<String>) -> Seq<Seq<char>> {
    s.map_values(|x: String| x@)
}

impl Generics {
    pub open spec fn deep(self) -> GenericsX {
        GenericsX { params: strs_view(self.params@), wheres: strs_view(self.wheres@) }
    }
}

/// Copies a list of strings, preserving its view.
#[verifier::loop_isolation(false)]
pub fn clone_strings(v: &Vec<String>) -> (r: Vec<String>)
    ensures
        r@ == v@,
{
    let mut out: Vec<String> = Vec::new();
    let mut i: usize = 0;
    while i < v.len()
        invariant
            i <= v@.len(),
            out@ == v@.subrange(0, i as int),
        decreases v@.len() - i,
    {
        out.push(v[i].clone());
        proof {
            assert(out@ =~= v@.subrange(0, i + 1 as int));
        }
        i = i + 1;
    }
    proof {
        assert(out@ =~= v@);
    }
    out
}

pub fn generics_clone(g: &Generics) -> (r: Generics)
    ensures
        r.deep() == g.deep(),
{
    Generics { params: clone_strings(&g.params), wheres: clone_strings(&g.wheres) }
}

/// Mathematical view of one variant field.
pub struct FieldX {
    pub name: Option<Seq<char>>,
    pub ty: TypeX,
    pub span: Span,
}

/// Mathematical view of a variant's payload fields.
pub enum FieldsX {
    Unit,
    Named(Seq<FieldX>),
    Unnamed(Seq<FieldX>),
}

/// Mathematical view of a variant.
pub struct VariantX {
    pub name: Seq<char>,
    pub span: Span,
    pub fields: FieldsX,
}

/// Mathematical view of a sum-type declaration.
pub struct SumTypeX {
    pub name: Seq<char>,
    pub span: Span,
    pub generics: GenericsX,
    pub variants: Seq<VariantX>,
}

/// A named payload field of a variant.
pub struct NamedField {
    pub name: String,
    pub ty: TypeExpr,
    pub span: Span,
}

/// An unnamed payload field of a variant.
pub struct UnnamedField {
    pub ty: TypeExpr,
    pub span: Span,
}

/// The payload fields of a variant: absent, named, or unnamed.
pub enum VariantFields {
    Unit,
    Named(Vec<NamedField>),
    Unnamed(Vec<UnnamedField>),
}

/// One variant of a sum-type declaration.
pub struct Variant {
    pub name: String,
    pub span: Span,
    pub fields: VariantFields,
}

/// A sum-type declaration: a tagged union whose variants each carry
/// at most one payload value.
pub struct SumType {
    pub name: String,
    pub span: Span,
    pub generics: Generics,
    pub variants: Vec<Variant>,
}

pub open spec fn named_fields_view(s: Seq<NamedField>) -> Seq<FieldX> {
    s.map_values(|f: NamedField| FieldX { name: Some(f.name@), ty: f.ty.deep(), span: f.span })
}

pub open spec fn unnamed_fields_view(s: Seq<UnnamedField>) -> Seq<FieldX> {
    s.map_values(|f: UnnamedField| FieldX { name: None, ty: f.ty.deep(), span: f.span })
}

impl VariantFields {
    pub open spec fn deep(self) -> FieldsX {
        match self {
            VariantFields::Unit => FieldsX::Unit,
            VariantFields::Named(fs) => FieldsX::Named(named_fields_view(fs@)),
            VariantFields::Unnamed(fs) => FieldsX::Unnamed(unnamed_fields_view(fs@)),
        }
    }
}

impl Variant {
    pub open spec fn deep(self) -> VariantX {
        VariantX { name: self.name@, span: self.span, fields: self.fields.deep() }
    }
}

pub open spec fn variants_view(s: Seq<Variant>) -> Seq<VariantX> {
    s.map_values(|v: Variant| v.deep())
}

impl SumType {
    pub open spec fn deep(self) -> SumTypeX {
        SumTypeX {
            name: self.name@,
            span: self.span,
            generics: self.generics.deep(),
            variants: variants_view(self.variants@),
        }
    }
}

#[verifier::loop_isolation(false)]
fn named_fields_clone(v: &Vec<NamedField>) -> (r: Vec<NamedField>)
    ensures
        named_fields_view(r@) == named_fields_view(v@),
{
    let mut out: Vec<NamedField> = Vec::new();
    let mut i: usize = 0;
    while i < v.len()
        invariant
            i <= v@.len(),
            out@.len() == i,
            forall|j: int| 0 <= j < i ==> named_fields_view(out@)[j] == named_fields_view(v@)[j],
        decreases v@.len() - i,
    {
        let f = &v[i];
        out.push(NamedField { name: f.name.clone(), ty: ty_clone(&f.ty), span: f.span });
        i = i + 1;
    }
    proof {
        assert(named_fields_view(out@) =~= named_fields_view(v@));
    }
    out
}

#[verifier::loop_isolation(false)]
fn unnamed_fields_clone(v: &Vec<UnnamedField>) -> (r: Vec<UnnamedField>)
    ensures
        unnamed_fields_view(r@) == unnamed_fields_view(v@),
{
    let mut out: Vec<UnnamedField> = Vec::new();
    let mut i: usize = 0;
    while i < v.len()
        invariant
            i <= v@.len(),
            out@.len() == i,
            forall|j: int| 0 <= j < i ==> unnamed_fields_view(out@)[j] == unnamed_fields_view(v@)[j],
        decreases v@.len() - i,
    {
        let f = &v[i];
        out.push(UnnamedField { ty: ty_clone(&f.ty), span: f.span });
        i = i + 1;
    }
    proof {
        assert(unnamed_fields_view(out@) =~= unnamed_fields_view(v@));
    }
    out
}

pub fn fields_clone(f: &VariantFields) -> (r: VariantFields)
    ensures
        r.deep() == f.deep(),
{
    match f {
        VariantFields::Unit => VariantFields::Unit,
        VariantFields::Named(fs) => VariantFields::Named(named_fields_clone(fs)),
        VariantFields::Unnamed(fs) => VariantFields::Unnamed(unnamed_fields_clone(fs)),
    }
}

/// Whether `s` occurs in `v`, compared by contents.
pub fn contains_string(v: &Vec<String>, s: &String) -> (r: bool)
    ensures
        r == exists|i: int| 0 <= i < v@.len() && v@[i]@ == s@,
{
    let mut i: usize = 0;
    while i < v.len()
        invariant
            i <= v@.len(),
            forall|j: int| 0 <= j < i ==> v@[j]@ != s@,
        decreases v@.len() - i,
    {
        if v[i].eq(s) {
            return true;
        }
        i = i + 1;
    }
    false
}

/// Structural copy of a variant, equal in view to the original.
pub fn variant_clone(v: &Variant) -> (r: Variant)
    ensures
        r.deep() == v.deep(),
{
    Variant { name: v.name.clone(), span: v.span, fields: fields_clone(&v.fields) }
}

} // verus!
