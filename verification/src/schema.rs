//! The schema model and its builder/validator: assembles a validated
//! [`UnionSchema`] from a [`UnionDecl`] and fails generation atomically
//! when the declaration is invalid.

use vstd::prelude::*;
use vstd::string::StringExecFns;
use crate::token::{Token, tokens_canon, tokens_text};
use crate::decl::{UnionDecl, VariantDecl, DeclData};
use crate::extract::{
    DeriveError,
    ValLookup,
    get_val,
    get_deref_type,
    spec_get_val,
    spec_get_deref_type,
};

verus! {

/// Which derive mode generation was asked for.
#[derive(Debug, Clone, Copy, PartialEq, Eq, Structural)]
pub enum Mode {
    /// All variants share one union-level declared value type.
    Uniform,
    /// Each variant may declare its own value type.
    PerVariant,
}

/// A declared value type: the base type's tokens, and whether the declared
/// type was an indirection (reference) type.
#[derive(Debug, Clone)]
pub struct ValueType {
    pub tokens: Vec<Token>,
    pub is_reference: bool,
}

/// A constant value: an opaque literal token sequence, compared by its
/// canonical text only and never evaluated.
#[derive(Debug, Clone)]
pub struct ConstantValue {
    pub tokens: Vec<Token>,
}

impl ConstantValue {
    /// The canonical text of this value.
    pub open spec fn canon(&self) -> Seq<char> {
        tokens_canon(self.tokens@)
    }

    /// Renders the canonical text.
    pub fn text(&self) -> (r: String)
        ensures
            r@ == self.canon(),
    {
        tokens_text(&self.tokens)
    }

    /// A copy holding an equal token sequence.
    pub fn duplicate(&self) -> (r: ConstantValue)
        ensures
            r.tokens@ == self.tokens@,
            r.canon() == self.canon(),
    {
        ConstantValue { tokens: crate::token::copy_tokens(&self.tokens, 0, self.tokens.len()) }
    }
}

/// One variant of the schema: name, arity (number of payload fields),
/// optional constant value, and, in `PerVariant` mode, an optional declared
/// value type.
#[derive(Debug)]
pub struct Variant {
    pub name: String,
    pub arity: usize,
    pub value: Option<ConstantValue>,
    pub armtype: Option<ValueType>,
}

/// The validated model of one annotated union: its name, the derive mode,
/// the union-level declared type (`Uniform` mode only), and the variants in
/// declaration order.
#[derive(Debug)]
pub struct UnionSchema {
    pub name: String,
    pub mode: Mode,
    pub value_type: Option<ValueType>,
    pub variants: Vec<Variant>,
}

impl UnionSchema {
    /// Well-formedness: in `Uniform` mode the union carries exactly one
    /// declared type and every variant a constant value; in `PerVariant`
    /// mode there is no union-level type.
    pub open spec fn wf(&self) -> bool {
        match self.mode {
            Mode::Uniform => self.value_type is Some && (forall|i: int|
                0 <= i < self.variants@.len() ==> (#[trigger] self.variants@[i]).value is Some),
            Mode::PerVariant => self.value_type is None,
        }
    }

    /// The canonical text of variant `i`'s constant value (empty when the
    /// variant has none).
    pub open spec fn canon_at(&self, i: int) -> Seq<char> {
        match self.variants@[i].value {
            Some(cv) => cv.canon(),
            None => Seq::empty(),
        }
    }

    /// The canonical texts of all variants, in declaration order: what the
    /// duplicate classifier groups.
    pub open spec fn canon_seq(&self) -> Seq<Seq<char>> {
        Seq::new(self.variants@.len(), |i: int| self.canon_at(i))
    }
}

/// The index of the first variant declaration at or after `i` whose value
/// annotation does not extract, or `-1` when all extract.
pub open spec fn first_bad_from(vs: Seq<VariantDecl>, i: int) -> int
    decreases vs.len() - i,
{
    if i < 0 || i >= vs.len() {
        -1
    } else if !(spec_get_val(vs[i].attrs@) is Found) {
        i
    } else {
        first_bad_from(vs, i + 1)
    }
}

/// The index of the first variant declaration whose value annotation does
/// not extract, or `-1`.
pub open spec fn first_bad(vs: Seq<VariantDecl>) -> int {
    first_bad_from(vs, 0)
}

/// Whether a `Uniform`-mode build succeeds on `decl`: the target is a
/// union of variants, the union-level type annotation extracts, and every
/// variant's value annotation extracts.
pub open spec fn uniform_decl_ok(decl: UnionDecl) -> bool {
    &&& decl.data matches DeclData::Variants(vs) && first_bad(vs@) == -1
    &&& spec_get_deref_type(decl.attrs@) is Some
}

/// How one schema variant arises from its declaration in `Uniform` mode.
pub open spec fn uniform_variant_of(v: Variant, vd: VariantDecl) -> bool {
    &&& v.name == vd.name
    &&& v.arity == vd.arity
    &&& spec_get_val(vd.attrs@) matches ValLookup::Found(ts) && v.value matches Some(cv)
        && cv.tokens@ == ts
    &&& v.armtype is None
}

/// How a `Uniform`-mode schema arises from its declaration.
pub open spec fn uniform_schema_of(s: UnionSchema, decl: UnionDecl) -> bool {
    &&& s.name == decl.name
    &&& s.mode == Mode::Uniform
    &&& spec_get_deref_type(decl.attrs@) matches Some(p) && s.value_type matches Some(vt)
        && vt.tokens@ == p.0 && vt.is_reference == p.1
    &&& decl.data matches DeclData::Variants(vs) && s.variants@.len() == vs@.len() && (forall|
        i: int,
    |
        0 <= i < vs@.len() ==> uniform_variant_of(#[trigger] s.variants@[i], vs@[i]))
}

/// Which generation-time error a `Uniform`-mode build owes on `decl`.
pub open spec fn uniform_error_of(e: DeriveError, decl: UnionDecl) -> bool {
    match e {
        DeriveError::DeriveForNonEnum(n) => decl.data is Other && n@ == "Const"@,
        DeriveError::MissingArmType(a, b) => decl.data matches DeclData::Variants(_)
            && spec_get_deref_type(decl.attrs@) is None && a@ == "applied to enum"@ && b@
            == "Const"@,
        DeriveError::MissingValue(n) => decl.data matches DeclData::Variants(vs)
            && spec_get_deref_type(decl.attrs@) is Some && ({
            let i = first_bad(vs@);
            i >= 0 && spec_get_val(vs@[i].attrs@) is Missing
        }) && n@ == "Const"@,
        DeriveError::NonLiteralValue => decl.data matches DeclData::Variants(vs)
            && spec_get_deref_type(decl.attrs@) is Some && ({
            let i = first_bad(vs@);
            i >= 0 && spec_get_val(vs@[i].attrs@) is Invalid
        }),
    }
}

/// Builds and validates the `Uniform`-mode schema: the union-level declared
/// type is required, and so is a constant value on every variant.
pub fn build_uniform_schema(input: &UnionDecl) -> (r: Result<UnionSchema, DeriveError>)
    ensures
        r matches Ok(s) ==> uniform_schema_of(s, *input) && s.wf(),
        r matches Err(e) ==> uniform_error_of(e, *input),
        (r is Ok) == uniform_decl_ok(*input),
{
    let vs = match &input.data {
        DeclData::Variants(vs) => vs,
        DeclData::Other => {
            return Err(DeriveError::DeriveForNonEnum(String::from_str("Const")));
        },
    };
    let (ty_tokens, deref) = match get_deref_type(&input.attrs) {
        Some(p) => p,
        None => {
            return Err(
                DeriveError::MissingArmType(
                    String::from_str("applied to enum"),
                    String::from_str("Const"),
                ),
            );
        },
    };
    let n = vs.len();
    let mut variants: Vec<Variant> = Vec::new();
    let mut i: usize = 0;
    while i < n
        invariant
            i <= n == vs@.len(),
            input.data matches DeclData::Variants(v2) && v2@ == vs@,
            spec_get_deref_type(input.attrs@) matches Some(p) && ty_tokens@ == p.0 && deref == p.1,
            first_bad(vs@) == first_bad_from(vs@, i as int),
            variants@.len() == i,
            forall|j: int|
                0 <= j < i ==> uniform_variant_of(#[trigger] variants@[j], vs@[j]),
        decreases n - i,
    {
        let vd = &vs[i];
        let val = match get_val("Const", &vd.attrs) {
            Ok(v) => v,
            Err(e) => {
                proof {
                    assert(first_bad(vs@) == i);
                }
                return Err(e);
            },
        };
        variants.push(
            Variant {
                name: vd.name.clone(),
                arity: vd.arity,
                value: Some(ConstantValue { tokens: val }),
                armtype: None,
            },
        );
        i = i + 1;
    }
    Ok(
        UnionSchema {
            name: input.name.clone(),
            mode: Mode::Uniform,
            value_type: Some(ValueType { tokens: ty_tokens, is_reference: deref }),
            variants,
        },
    )
}

/// How one schema variant arises from its declaration in `PerVariant`
/// mode: a value annotation that does not extract leaves the variant
/// without a value, and a type annotation that does not extract leaves it
/// without a declared type; neither is an error.
pub open spec fn per_variant_variant_of(v: Variant, vd: VariantDecl) -> bool {
    &&& v.name == vd.name
    &&& v.arity == vd.arity
    &&& match spec_get_val(vd.attrs@) {
        ValLookup::Found(ts) => v.value matches Some(cv) && cv.tokens@ == ts,
        _ => v.value is None,
    }
    &&& match spec_get_deref_type(vd.attrs@) {
        Some(p) => v.armtype matches Some(vt) && vt.tokens@ == p.0 && vt.is_reference == p.1,
        None => v.armtype is None,
    }
}

/// How a `PerVariant`-mode schema arises from its declaration.
pub open spec fn per_variant_schema_of(s: UnionSchema, decl: UnionDecl) -> bool {
    &&& s.name == decl.name
    &&& s.mode == Mode::PerVariant
    &&& s.value_type is None
    &&& decl.data matches DeclData::Variants(vs) && s.variants@.len() == vs@.len() && (forall|
        i: int,
    |
        0 <= i < vs@.len() ==> per_variant_variant_of(#[trigger] s.variants@[i], vs@[i]))
}

/// Builds the `PerVariant`-mode schema: only the union-of-variants shape is
/// required; values and types are optional per variant.
pub fn build_per_variant_schema(input: &UnionDecl) -> (r: Result<UnionSchema, DeriveError>)
    ensures
        r matches Ok(s) ==> per_variant_schema_of(s, *input) && s.wf(),
        r matches Err(e) ==> e matches DeriveError::DeriveForNonEnum(n) && input.data is Other
            && n@ == "ConstEach"@,
        (r is Ok) == input.data matches DeclData::Variants(_),
{
    let vs = match &input.data {
        DeclData::Variants(vs) => vs,
        DeclData::Other => {
            return Err(DeriveError::DeriveForNonEnum(String::from_str("ConstEach")));
        },
    };
    let n = vs.len();
    let mut variants: Vec<Variant> = Vec::new();
    let mut i: usize = 0;
    while i < n
        invariant
            i <= n == vs@.len(),
            input.data matches DeclData::Variants(v2) && v2@ == vs@,
            variants@.len() == i,
            forall|j: int|
                0 <= j < i ==> per_variant_variant_of(#[trigger] variants@[j], vs@[j]),
        decreases n - i,
    {
        let vd = &vs[i];
        let value = match get_val("ConstEach", &vd.attrs) {
            Ok(v) => Some(ConstantValue { tokens: v }),
            Err(_) => None,
        };
        let armtype = match get_deref_type(&vd.attrs) {
            Some(p) => Some(ValueType { tokens: p.0, is_reference: p.1 }),
            None => None,
        };
        variants.push(Variant { name: vd.name.clone(), arity: vd.arity, value, armtype });
        i = i + 1;
    }
    Ok(
        UnionSchema {
            name: input.name.clone(),
            mode: Mode::PerVariant,
            value_type: None,
            variants,
        },
    )
}

} // verus!
