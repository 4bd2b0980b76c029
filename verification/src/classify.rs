//! The duplicate/arity classifier: canonical forms, duplicate groups, and
//! the per-variant classification that drives the synthesizer's tiers.
//!
//! Duplicate groups are computed once per schema and classification is
//! derived from them: a variant in a group of two or more is ambiguous
//! regardless of its arity; among uniquely-valued variants, arity decides.

use vstd::prelude::*;
use crate::prelude::{
    Positions,
    count_in,
    indices_in,
    key_seq,
    usizes_are_ints,
};
use crate::schema::{Mode, UnionSchema};

verus! {

/// How one variant takes part in the generated reverse lookup.
#[derive(Debug, Clone, Copy, PartialEq, Eq, Structural)]
pub enum Classification {
    /// Arity zero and a unique value: eligible for direct reverse mapping.
    UniqueNoPayload,
    /// A value shared with at least one other variant, regardless of
    /// arity.
    AmbiguousGroup,
    /// A unique value on a variant that carries payload fields.
    PayloadBearing,
}

/// The classification of variant `i`: duplicate-group exclusion comes
/// before the payload classification.
pub open spec fn spec_classification(s: UnionSchema, i: int) -> Classification {
    if count_in(s.canon_seq(), s.canon_at(i)) > 1 {
        Classification::AmbiguousGroup
    } else if s.variants@[i].arity > 0 {
        Classification::PayloadBearing
    } else {
        Classification::UniqueNoPayload
    }
}

/// The variant indices sharing one canonical textual value: size one means
/// unique, larger means ambiguous.
#[derive(Debug)]
pub struct DuplicateGroup {
    pub text: String,
    pub indices: Vec<usize>,
}

/// Renders the canonical texts of all variants' values, in declaration
/// order: the sequence the classifier groups.
pub fn canon_texts(s: &UnionSchema) -> (r: Vec<String>)
    requires
        s.wf(),
        s.mode == Mode::Uniform,
    ensures
        r@.len() == s.variants@.len(),
        forall|i: int| 0 <= i < r@.len() ==> (#[trigger] r@[i])@ == s.canon_at(i),
        r.deep_view() == s.canon_seq(),
{
    let n = s.variants.len();
    let mut out: Vec<String> = Vec::new();
    let mut i: usize = 0;
    while i < n
        invariant
            i <= n == s.variants@.len(),
            s.wf(),
            s.mode == Mode::Uniform,
            out@.len() == i,
            forall|j: int| 0 <= j < i ==> (#[trigger] out@[j])@ == s.canon_at(j),
        decreases n - i,
    {
        let cv = match &s.variants[i].value {
            Some(cv) => cv,
            None => {
                proof {
                    assert(s.variants@[i as int].value is Some);
                }
                vstd::pervasive::unreached()
            },
        };
        out.push(cv.text());
        i = i + 1;
    }
    proof {
        assert(out.deep_view() =~= s.canon_seq());
    }
    out
}

fn copy_indices(v: &Vec<usize>) -> (r: Vec<usize>)
    ensures
        r@ == v@,
{
    let mut out: Vec<usize> = Vec::new();
    let mut i: usize = 0;
    while i < v.len()
        invariant
            i <= v@.len(),
            out@ == v@.take(i as int),
        decreases v@.len() - i,
    {
        out.push(v[i]);
        proof {
            assert(out@ =~= v@.take(i + 1));
        }
        i = i + 1;
    }
    proof {
        assert(v@.take(v@.len() as int) =~= v@);
    }
    out
}

/// Computes the duplicate groups of a schema, keyed by canonical text in
/// order of first occurrence, each holding the ascending indices of the
/// variants sharing the value.
pub fn duplicate_groups(s: &UnionSchema) -> (r: Vec<DuplicateGroup>)
    requires
        s.wf(),
        s.mode == Mode::Uniform,
    ensures
        ({
            let items = s.canon_seq();
            &&& r@.len() == key_seq(items).len()
            &&& forall|j: int|
                0 <= j < r@.len() ==> (#[trigger] r@[j]).text@ == key_seq(items)[j]
                    && usizes_are_ints(r@[j].indices@, indices_in(items, key_seq(items)[j]))
        }),
{
    let ghost items = s.canon_seq();
    let texts = canon_texts(s);
    let pos = texts.positions();
    let mut out: Vec<DuplicateGroup> = Vec::new();
    let mut g: usize = 0;
    while g < pos.len()
        invariant
            g <= pos@.len(),
            crate::prelude::positions_post(items, pos@),
            out@.len() == g,
            forall|j: int|
                0 <= j < g ==> (#[trigger] out@[j]).text@ == key_seq(items)[j] && usizes_are_ints(
                    out@[j].indices@,
                    indices_in(items, key_seq(items)[j]),
                ),
        decreases pos@.len() - g,
    {
        out.push(DuplicateGroup { text: pos[g].0.clone(), indices: copy_indices(&pos[g].1) });
        g = g + 1;
    }
    out
}

/// Computes the classification of every variant, in declaration order.
pub fn classify_variants(s: &UnionSchema) -> (r: Vec<Classification>)
    requires
        s.wf(),
        s.mode == Mode::Uniform,
    ensures
        r@.len() == s.variants@.len(),
        forall|i: int| 0 <= i < r@.len() ==> r@[i] == spec_classification(*s, i),
{
    let ghost items = s.canon_seq();
    let texts = canon_texts(s);
    let n = texts.len();
    let mut out: Vec<Classification> = Vec::new();
    let mut i: usize = 0;
    while i < n
        invariant
            i <= n == s.variants@.len(),
            s.wf(),
            s.mode == Mode::Uniform,
            texts@.len() == n,
            texts.deep_view() == items,
            items == s.canon_seq(),
            out@.len() == i,
            forall|j: int| 0 <= j < i ==> out@[j] == spec_classification(*s, j),
        decreases n - i,
    {
        let total = crate::prelude::count_occurrences(&texts, &texts[i], n);
        proof {
            assert(texts.deep_view()[i as int] == texts@[i as int]@);
            assert(items[i as int] == s.canon_at(i as int));
            assert(total == count_in(items, s.canon_at(i as int)));
        }
        let c = if total > 1 {
            Classification::AmbiguousGroup
        } else if s.variants[i].arity > 0 {
            Classification::PayloadBearing
        } else {
            Classification::UniqueNoPayload
        };
        out.push(c);
        i = i + 1;
    }
    out
}

} // verus!
