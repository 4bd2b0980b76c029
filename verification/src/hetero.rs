//! The heterogeneous synthesizer (`PerVariant` mode): per-variant typed
//! retrieval.
//!
//! Each variant with a constant value stores the literal alongside a type
//! descriptor — the declared type when present, the literal's own natural
//! type otherwise. Retrieval performs a checked type-identity comparison
//! against the caller's requested descriptor and yields the value only on
//! an exact match, never an implicit conversion; a variant without a value
//! yields nothing for every requested type.

use vstd::prelude::*;
use vstd::string::StringExecFns;
use crate::token::{Token, Lit, tokens_canon, tokens_text, copy_tokens};
use crate::decl::{UnionDecl, DeclData};
use crate::extract::DeriveError;
use crate::schema::{
    ConstantValue,
    Mode,
    UnionSchema,
    ValueType,
    Variant,
    build_per_variant_schema,
    per_variant_schema_of,
};

verus! {

/// The identity of a stored or requested value type. Two identities match
/// only when they are exactly equal: no widening, no conversion.
#[derive(Debug)]
pub enum TypeId {
    /// A type expression, identified by its canonical token text,
    /// indirection marker included.
    Named { text: String },
    /// The natural type of a byte-string literal with the given byte
    /// count.
    ByteArray { len: usize },
}

/// The mathematical identity a [`TypeId`] denotes.
pub enum TypeKey {
    Named(Seq<char>),
    ByteArray(nat),
}

/// The identity denoted by a descriptor.
pub open spec fn key_of(t: TypeId) -> TypeKey {
    match t {
        TypeId::Named { text } => TypeKey::Named(text@),
        TypeId::ByteArray { len } => TypeKey::ByteArray(len as nat),
    }
}

/// The full token sequence of a declared type, indirection marker
/// included.
pub open spec fn vtype_tokens(vt: ValueType) -> Seq<Token> {
    if vt.is_reference {
        seq![Token::Punct { ch: '&' }] + vt.tokens@
    } else {
        vt.tokens@
    }
}

/// The natural type of a value that is a single literal: the type its
/// literal form carries on its own. A value made of several tokens has no
/// natural type here, and stores nothing.
pub open spec fn infer_key(ts: Seq<Token>) -> Option<TypeKey> {
    if ts.len() == 1 {
        match ts[0] {
            Token::Literal { lit } => match lit {
                Lit::Int { .. } => Some(TypeKey::Named("i32"@)),
                Lit::Str { .. } => Some(TypeKey::Named("& str"@)),
                Lit::ByteStr { len, .. } => Some(TypeKey::ByteArray(len as nat)),
                Lit::Bool { .. } => Some(TypeKey::Named("bool"@)),
            },
            _ => None,
        }
    } else {
        None
    }
}

impl TypeId {
    /// A descriptor for the type spelled by the given tokens.
    pub fn named(tokens: &Vec<Token>) -> (r: TypeId)
        ensures
            key_of(r) == TypeKey::Named(tokens_canon(tokens@)),
    {
        TypeId::Named { text: tokens_text(tokens) }
    }

    /// A descriptor for the natural type of a byte-string literal of `len`
    /// bytes.
    pub fn byte_array(len: usize) -> (r: TypeId)
        ensures
            key_of(r) == TypeKey::ByteArray(len as nat),
    {
        TypeId::ByteArray { len }
    }

    /// The descriptor of a declared value type, indirection marker
    /// included.
    pub fn of_value_type(vt: &ValueType) -> (r: TypeId)
        ensures
            key_of(r) == TypeKey::Named(tokens_canon(vtype_tokens(*vt))),
    {
        let full = full_type_tokens(vt);
        TypeId::Named { text: tokens_text(&full) }
    }

    /// Exact type-identity comparison.
    pub fn same(&self, other: &TypeId) -> (r: bool)
        ensures
            r == (key_of(*self) == key_of(*other)),
    {
        match (self, other) {
            (TypeId::Named { text: a }, TypeId::Named { text: b }) => a.eq(b),
            (TypeId::ByteArray { len: a }, TypeId::ByteArray { len: b }) => *a == *b,
            _ => false,
        }
    }
}

/// Builds the full token sequence of a declared type, indirection marker
/// included.
fn full_type_tokens(vt: &ValueType) -> (r: Vec<Token>)
    ensures
        r@ == vtype_tokens(*vt),
{
    let mut out: Vec<Token> = Vec::new();
    if vt.is_reference {
        out.push(Token::Punct { ch: '&' });
    }
    let mut rest = copy_tokens(&vt.tokens, 0, vt.tokens.len());
    out.append(&mut rest);
    proof {
        assert(out@ =~= vtype_tokens(*vt));
    }
    out
}

/// The descriptor of a single-literal value's natural type, when it has
/// one.
fn infer_type(cv: &ConstantValue) -> (r: Option<TypeId>)
    ensures
        match infer_key(cv.tokens@) {
            Some(k) => r matches Some(t) && key_of(t) == k,
            None => r is None,
        },
{
    if cv.tokens.len() != 1 {
        return None;
    }
    match &cv.tokens[0] {
        Token::Literal { lit } => match lit {
            Lit::Int { .. } => Some(TypeId::Named { text: String::from_str("i32") }),
            Lit::Str { .. } => Some(TypeId::Named { text: String::from_str("& str") }),
            Lit::ByteStr { len, .. } => Some(TypeId::ByteArray { len: *len }),
            Lit::Bool { .. } => Some(TypeId::Named { text: String::from_str("bool") }),
        },
        _ => None,
    }
}

/// What one variant stores for typed retrieval: nothing without a constant
/// value; otherwise the value typed by the declared type when present, or
/// by the literal's natural type when one can be inferred.
pub open spec fn entry_of(v: Variant, e: Option<(TypeId, ConstantValue)>) -> bool {
    match v.value {
        None => e is None,
        Some(cv) => match v.armtype {
            Some(vt) => e matches Some(p) && key_of(p.0) == TypeKey::Named(
                tokens_canon(vtype_tokens(vt)),
            ) && p.1.tokens@ == cv.tokens@,
            None => match infer_key(cv.tokens@) {
                Some(k) => e matches Some(p) && key_of(p.0) == k && p.1.tokens@ == cv.tokens@,
                None => e is None,
            },
        },
    }
}

/// The generated operation of `PerVariant` mode: typed dynamic retrieval,
/// backed by the schema and the per-variant stored values.
#[derive(Debug)]
pub struct ConstEachImpl {
    pub schema: UnionSchema,
    pub entries: Vec<Option<(TypeId, ConstantValue)>>,
}

impl ConstEachImpl {
    /// Well-formedness: a validated `PerVariant` schema with one stored
    /// entry per variant.
    pub open spec fn wf(&self) -> bool {
        &&& self.schema.wf()
        &&& self.schema.mode == Mode::PerVariant
        &&& self.entries@.len() == self.schema.variants@.len()
        &&& forall|i: int|
            0 <= i < self.entries@.len() ==> entry_of(
                self.schema.variants@[i],
                #[trigger] self.entries@[i],
            )
    }

    /// The number of variants.
    pub fn variant_count(&self) -> (r: usize)
        ensures
            r == self.schema.variants@.len(),
    {
        self.schema.variants.len()
    }

    /// Typed retrieval: the stored value, only when the requested type is
    /// exactly the stored or inferred type; `None` otherwise, and `None`
    /// always for a variant without a constant value.
    pub fn value_typed(&self, variant: usize, requested: &TypeId) -> (r: Option<&ConstantValue>)
        requires
            self.wf(),
            variant < self.schema.variants@.len(),
        ensures
            match self.entries@[variant as int] {
                None => r is None,
                Some(p) => if key_of(p.0) == key_of(*requested) {
                    r matches Some(cv) && *cv == p.1
                } else {
                    r is None
                },
            },
    {
        match &self.entries[variant] {
            None => None,
            Some((t, cv)) => {
                if t.same(requested) {
                    Some(cv)
                } else {
                    None
                }
            },
        }
    }
}

/// Generates the `PerVariant`-mode operation for one annotated union:
/// builds the schema and stores, per variant, the constant value typed by
/// its declared or inferred type.
pub fn thisenum_const_each(input: &UnionDecl) -> (r: Result<ConstEachImpl, DeriveError>)
    ensures
        r matches Ok(c) ==> c.wf() && per_variant_schema_of(c.schema, *input),
        r matches Err(e) ==> e matches DeriveError::DeriveForNonEnum(n) && input.data is Other
            && n@ == "ConstEach"@,
        (r is Ok) == input.data matches DeclData::Variants(_),
{
    let schema = match build_per_variant_schema(input) {
        Ok(s) => s,
        Err(e) => {
            return Err(e);
        },
    };
    let n = schema.variants.len();
    let mut entries: Vec<Option<(TypeId, ConstantValue)>> = Vec::new();
    let mut i: usize = 0;
    while i < n
        invariant
            i <= n == schema.variants@.len(),
            schema.wf(),
            schema.mode == Mode::PerVariant,
            per_variant_schema_of(schema, *input),
            entries@.len() == i,
            forall|j: int|
                0 <= j < i ==> entry_of(schema.variants@[j], #[trigger] entries@[j]),
        decreases n - i,
    {
        let v = &schema.variants[i];
        let e: Option<(TypeId, ConstantValue)> = match (&v.armtype, &v.value) {
            (Some(vt), Some(cv)) => Some((TypeId::of_value_type(vt), cv.duplicate())),
            (None, Some(cv)) => match infer_type(cv) {
                Some(t) => Some((t, cv.duplicate())),
                None => None,
            },
            (_, None) => None,
        };
        entries.push(e);
        i = i + 1;
    }
    Ok(ConstEachImpl { schema, entries })
}

} // verus!
