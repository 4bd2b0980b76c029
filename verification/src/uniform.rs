//! The shared-type synthesizer (`Uniform` mode): builds, per schema, the
//! family of generated operations — forward value accessor, reverse
//! value-to-variant lookup, equality against the raw value, debug
//! rendering, and conversion to a standalone value.
//!
//! The reverse lookup is built as three ordered tiers of arms that never
//! overlap: one arm per unique zero-arity variant, one arm per duplicate
//! group's representative value, one arm per unique payload-bearing
//! variant, and a single default. Exactly one of the specific-or-default
//! arms fires for any input.

use vstd::prelude::*;
use vstd::string::StringExecFns;
use crate::Error;
use crate::decl::UnionDecl;
use crate::extract::DeriveError;
use crate::prelude::{
    Counts,
    count_in,
    counts_post,
    count_occurrences,
    first_ix,
    key_seq,
    lemma_count_zero,
    lemma_first_ix,
    lemma_first_ix_unique,
    lemma_keys_covers,
};
use crate::classify::{Classification, canon_texts, spec_classification};
use crate::schema::{
    ConstantValue,
    Mode,
    UnionSchema,
    build_uniform_schema,
    uniform_decl_ok,
    uniform_error_of,
    uniform_schema_of,
};

verus! {

/// What the reverse lookup owes for one raw canonical text, per the
/// duplicate/arity classification: the unique zero-arity variant holding
/// it, or the fact that the value is shared, borne by a payload-bearing
/// variant, or unknown. Duplicate-group exclusion comes before the payload
/// classification.
pub enum Decision {
    /// Exactly one variant holds the value and it has no payload: its
    /// index.
    Hit(int),
    /// Two or more variants share the value.
    Ambiguous,
    /// Exactly one variant holds the value but it carries payload fields:
    /// its index.
    Incompatible(int),
    /// No variant holds the value.
    Miss,
}

/// The classification of a raw canonical text against a schema.
pub open spec fn reverse_decision(s: UnionSchema, raw: Seq<char>) -> Decision {
    let items = s.canon_seq();
    if count_in(items, raw) == 0 {
        Decision::Miss
    } else if count_in(items, raw) > 1 {
        Decision::Ambiguous
    } else if s.variants@[first_ix(items, raw)].arity > 0 {
        Decision::Incompatible(first_ix(items, raw))
    } else {
        Decision::Hit(first_ix(items, raw))
    }
}

/// Whether `r` is the result the reverse lookup owes for `raw`.
pub open spec fn lookup_matches(s: UnionSchema, raw: Seq<char>, r: Result<usize, Error>) -> bool {
    match reverse_decision(s, raw) {
        Decision::Hit(j) => r matches Ok(k) && k == j,
        Decision::Ambiguous => r matches Err(Error::UnreachableValue(t)) && t@ == raw,
        Decision::Incompatible(j) => r matches Err(Error::UnableToReturnVariant(nm)) && nm@
            == s.variants@[j].name@,
        Decision::Miss => r matches Err(Error::InvalidValue(t, u)) && t@ == raw && u@ == s.name@,
    }
}

/// One arm of the generated reverse lookup: a canonical text pattern and
/// the result it yields.
#[derive(Debug)]
pub struct Arm {
    pub text: String,
    pub result: Result<usize, Error>,
}

impl Arm {
    /// An equal copy of the arm's result.
    pub fn result_copy(&self) -> (r: Result<usize, Error>)
        ensures
            r == self.result,
    {
        match &self.result {
            Ok(k) => Ok(*k),
            Err(e) => Err(e.duplicate()),
        }
    }
}

/// A specific arm is sound: it yields exactly what the classification owes
/// for its pattern, and its pattern belongs to some variant (the default
/// arm is not in the table).
pub open spec fn arm_ok(s: UnionSchema, arm: Arm) -> bool {
    &&& !(reverse_decision(s, arm.text@) is Miss)
    &&& lookup_matches(s, arm.text@, arm.result)
}

/// Every variant's value is covered by some specific arm.
pub open spec fn arms_complete(s: UnionSchema, arms: Seq<Arm>) -> bool {
    forall|i: int|
        0 <= i < s.variants@.len() ==> exists|k: int|
            0 <= k < arms.len() && (#[trigger] arms[k]).text@ == #[trigger] s.canon_at(i)
}

/// The generated operations of `Uniform` mode, backed by the validated
/// schema and the tiered reverse-lookup arm table.
#[derive(Debug)]
pub struct ConstImpl {
    pub schema: UnionSchema,
    pub arms: Vec<Arm>,
}

impl ConstImpl {
    /// Well-formedness: the schema is a validated `Uniform` schema, every
    /// arm is sound, and every variant's value has an arm.
    pub open spec fn wf(&self) -> bool {
        &&& self.schema.wf()
        &&& self.schema.mode == Mode::Uniform
        &&& forall|k: int|
            0 <= k < self.arms@.len() ==> arm_ok(self.schema, #[trigger] self.arms@[k])
        &&& arms_complete(self.schema, self.arms@)
    }

    /// The number of variants.
    pub fn variant_count(&self) -> (r: usize)
        ensures
            r == self.schema.variants@.len(),
    {
        self.schema.variants.len()
    }

    /// The forward accessor: the constant value declared on the variant,
    /// returned exactly as declared, with no transformation.
    pub fn value(&self, variant: usize) -> (r: &ConstantValue)
        requires
            self.wf(),
            variant < self.schema.variants@.len(),
        ensures
            self.schema.variants@[variant as int].value matches Some(cv) && *r == cv,
    {
        match &self.schema.variants[variant].value {
            Some(cv) => cv,
            None => {
                proof {
                    assert(self.schema.variants@[variant as int].value is Some);
                }
                vstd::pervasive::unreached()
            },
        }
    }

    /// The reverse lookup: scans the tiered arms for the raw value's
    /// canonical text; the default arm reports an unknown value. Exactly
    /// one of the specific-or-default arms fires for any input.
    pub fn try_from_value(&self, raw: &ConstantValue) -> (r: Result<usize, Error>)
        requires
            self.wf(),
        ensures
            lookup_matches(self.schema, raw.canon(), r),
    {
        let raw_text = raw.text();
        let n = self.arms.len();
        let mut k: usize = 0;
        while k < n
            invariant
                k <= n == self.arms@.len(),
                self.wf(),
                raw_text@ == raw.canon(),
                forall|k2: int| 0 <= k2 < k ==> (#[trigger] self.arms@[k2]).text@ != raw.canon(),
            decreases n - k,
        {
            if self.arms[k].text.eq(&raw_text) {
                return self.arms[k].result_copy();
            }
            k = k + 1;
        }
        proof {
            let items = self.schema.canon_seq();
            lemma_first_ix(items, raw.canon());
            if count_in(items, raw.canon()) > 0 {
                let j = first_ix(items, raw.canon());
                assert(items[j] == self.schema.canon_at(j));
                assert(exists|k2: int|
                    0 <= k2 < self.arms@.len() && (#[trigger] self.arms@[k2]).text@
                        == self.schema.canon_at(j));
                assert(false);
            }
            assert(reverse_decision(self.schema, raw.canon()) is Miss);
        }
        Err(Error::InvalidValue(raw.text(), self.schema.name.clone()))
    }

    /// Equality of a variant against a raw value: delegates to the forward
    /// accessor and compares canonical texts.
    pub fn eq_value(&self, variant: usize, raw: &ConstantValue) -> (r: bool)
        requires
            self.wf(),
            variant < self.schema.variants@.len(),
        ensures
            r == (self.schema.canon_at(variant as int) == raw.canon()),
    {
        let v = self.value(variant);
        let a = v.text();
        let b = raw.text();
        a.eq(&b)
    }

    /// Equality of a raw value against a variant: the mirrored direction,
    /// delegating to the forward accessor the same way.
    pub fn value_eq(&self, raw: &ConstantValue, variant: usize) -> (r: bool)
        requires
            self.wf(),
            variant < self.schema.variants@.len(),
        ensures
            r == (raw.canon() == self.schema.canon_at(variant as int)),
    {
        let v = self.value(variant);
        let a = raw.text();
        let b = v.text();
        a.eq(&b)
    }

    /// The debug rendering: `<UnionName>::<VariantName>: <value>`, using
    /// the forward accessor's result.
    pub fn debug_text(&self, variant: usize) -> (r: String)
        requires
            self.wf(),
            variant < self.schema.variants@.len(),
        ensures
            r@ == self.schema.name@ + seq![':', ':'] + self.schema.variants@[variant as int].name@
                + seq![':', ' '] + self.schema.canon_at(variant as int),
    {
        let mut s = self.schema.name.clone();
        s.append("::");
        s.append(self.schema.variants[variant].name.as_str());
        s.append(": ");
        let vt = self.value(variant).text();
        s.append(vt.as_str());
        proof {
            reveal_strlit("::");
            reveal_strlit(": ");
            assert(s@ =~= self.schema.name@ + seq![':', ':']
                + self.schema.variants@[variant as int].name@ + seq![':', ' ']
                + self.schema.canon_at(variant as int));
        }
        s
    }

    /// Conversion to a standalone copy of the variant's value, emitted only
    /// when the declared type is not a reference type (a reference type
    /// cannot be moved out of static storage).
    pub fn into_value(&self, variant: usize) -> (r: Option<ConstantValue>)
        requires
            self.wf(),
            variant < self.schema.variants@.len(),
        ensures
            self.schema.value_type matches Some(t) && (if t.is_reference {
                r is None
            } else {
                r matches Some(cv) && self.schema.variants@[variant as int].value matches Some(v0)
                    && cv.tokens@ == v0.tokens@
            }),
    {
        let is_ref = match &self.schema.value_type {
            Some(t) => t.is_reference,
            None => {
                proof {
                    assert(self.schema.value_type is Some);
                }
                vstd::pervasive::unreached()
            },
        };
        if is_ref {
            None
        } else {
            Some(self.value(variant).duplicate())
        }
    }
}

/// Generates the `Uniform`-mode operations for one annotated union: builds
/// and validates the schema, classifies the variants by duplicate value and
/// arity, and assembles the tiered reverse-lookup arms.
pub fn thisenum_const(input: &UnionDecl) -> (r: Result<ConstImpl, DeriveError>)
    ensures
        r matches Ok(c) ==> c.wf() && uniform_schema_of(c.schema, *input),
        r matches Err(e) ==> uniform_error_of(e, *input),
        (r is Ok) == uniform_decl_ok(*input),
{
    let schema = match build_uniform_schema(input) {
        Ok(s) => s,
        Err(e) => {
            return Err(e);
        },
    };
    let values_string = canon_texts(&schema);
    let ghost items = schema.canon_seq();
    let n = schema.variants.len();
    // Tiers one and three: one arm per unique zero-arity variant mapping
    // its value to the variant, and one arm per unique payload-bearing
    // variant mapping its value to the incompatibility error. Variants in
    // a duplicate group contribute no arm here: their value is covered by
    // the group representative's arm below.
    let mut tier_a: Vec<Arm> = Vec::new();
    let mut tier_c: Vec<Arm> = Vec::new();
    let mut i: usize = 0;
    while i < n
        invariant
            i <= n == schema.variants@.len(),
            schema.wf(),
            schema.mode == Mode::Uniform,
            uniform_schema_of(schema, *input),
            values_string@.len() == n,
            values_string.deep_view() == items,
            items == schema.canon_seq(),
            forall|k: int| 0 <= k < tier_a@.len() ==> arm_ok(schema, #[trigger] tier_a@[k]),
            forall|k: int| 0 <= k < tier_c@.len() ==> arm_ok(schema, #[trigger] tier_c@[k]),
            forall|i2: int| #![trigger schema.canon_at(i2)]
                0 <= i2 < i && count_in(items, schema.canon_at(i2)) == 1 ==> (exists|k: int|
                    0 <= k < tier_a@.len() && (#[trigger] tier_a@[k]).text@ == schema.canon_at(i2))
                    || (exists|k: int|
                    0 <= k < tier_c@.len() && (#[trigger] tier_c@[k]).text@ == schema.canon_at(
                        i2,
                    )),
        decreases n - i,
    {
        let ghost ta_old = tier_a@;
        let ghost tc_old = tier_c@;
        let total = count_occurrences(&values_string, &values_string[i], n);
        proof {
            assert(values_string.deep_view()[i as int] == values_string@[i as int]@);
            assert(items[i as int] == schema.canon_at(i as int));
            assert(total == count_in(items, schema.canon_at(i as int)));
        }
        if total == 1 {
            let arity = schema.variants[i].arity;
            if arity == 0 {
                let arm = Arm { text: values_string[i].clone(), result: Ok(i) };
                proof {
                    lemma_first_ix_unique(items, schema.canon_at(i as int), i as int);
                    assert(reverse_decision(schema, arm.text@) == Decision::Hit(i as int));
                    assert(arm_ok(schema, arm));
                }
                tier_a.push(arm);
                proof {
                    assert(tier_a@[tier_a@.len() - 1].text@ == schema.canon_at(i as int));
                }
            } else {
                let arm = Arm {
                    text: values_string[i].clone(),
                    result: Err(Error::UnableToReturnVariant(schema.variants[i].name.clone())),
                };
                proof {
                    lemma_first_ix_unique(items, schema.canon_at(i as int), i as int);
                    assert(reverse_decision(schema, arm.text@) == Decision::Incompatible(
                        i as int,
                    ));
                    assert(arm_ok(schema, arm));
                }
                tier_c.push(arm);
                proof {
                    assert(tier_c@[tier_c@.len() - 1].text@ == schema.canon_at(i as int));
                }
            }
        }
        proof {
            assert forall|i2: int|
                0 <= i2 < i + 1 && count_in(items, #[trigger] schema.canon_at(i2)) == 1 implies (
            exists|k: int|
                0 <= k < tier_a@.len() && (#[trigger] tier_a@[k]).text@ == schema.canon_at(i2)) || (
            exists|k: int|
                0 <= k < tier_c@.len() && (#[trigger] tier_c@[k]).text@ == schema.canon_at(
                    i2,
                )) by {
                if i2 < i as int {
                    if exists|k: int|
                        0 <= k < ta_old.len() && (#[trigger] ta_old[k]).text@ == schema.canon_at(
                            i2,
                        ) {
                        let k = choose|k: int|
                            0 <= k < ta_old.len() && (#[trigger] ta_old[k]).text@
                                == schema.canon_at(i2);
                        assert(tier_a@[k].text@ == schema.canon_at(i2));
                    } else {
                        let k = choose|k: int|
                            0 <= k < tc_old.len() && (#[trigger] tc_old[k]).text@
                                == schema.canon_at(i2);
                        assert(tier_c@[k].text@ == schema.canon_at(i2));
                    }
                } else {
                    if schema.variants@[i as int].arity == 0 {
                        assert(tier_a@[tier_a@.len() - 1].text@ == schema.canon_at(i2));
                    } else {
                        assert(tier_c@[tier_c@.len() - 1].text@ == schema.canon_at(i2));
                    }
                }
            };
        }
        i = i + 1;
    }
    // Tier two: one arm per duplicate group, carrying the shared value; the
    // group's first member in declaration order is the representative whose
    // value appears in the arm.
    let groups = values_string.counts();
    let mut tier_b: Vec<Arm> = Vec::new();
    let mut g: usize = 0;
    while g < groups.len()
        invariant
            g <= groups@.len(),
            schema.wf(),
            schema.mode == Mode::Uniform,
            items == schema.canon_seq(),
            counts_post(items, groups@),
            forall|k: int| 0 <= k < tier_b@.len() ==> arm_ok(schema, #[trigger] tier_b@[k]),
            forall|g2: int| #![trigger key_seq(items)[g2]]
                0 <= g2 < g && count_in(items, key_seq(items)[g2]) > 1 ==> exists|k: int|
                    0 <= k < tier_b@.len() && (#[trigger] tier_b@[k]).text@ == key_seq(items)[g2],
        decreases groups@.len() - g,
    {
        let ghost tb_old = tier_b@;
        let cnt = groups[g].1;
        if cnt > 1 {
            let arm = Arm {
                text: groups[g].0.clone(),
                result: Err(Error::UnreachableValue(groups[g].0.clone())),
            };
            proof {
                assert(groups@[g as int].0@ == key_seq(items)[g as int]);
                assert(count_in(items, arm.text@) > 1);
                assert(reverse_decision(schema, arm.text@) is Ambiguous);
                assert(arm_ok(schema, arm));
            }
            tier_b.push(arm);
            proof {
                assert(tier_b@[tier_b@.len() - 1].text@ == key_seq(items)[g as int]);
            }
        }
        proof {
            assert(groups@[g as int].1 == count_in(items, key_seq(items)[g as int]));
            assert forall|g2: int|
                0 <= g2 < g + 1 && count_in(items, #[trigger] key_seq(items)[g2]) > 1 implies exists|
                k: int,
            | 0 <= k < tier_b@.len() && (#[trigger] tier_b@[k]).text@ == key_seq(items)[g2] by {
                if g2 < g as int {
                    let k = choose|k: int|
                        0 <= k < tb_old.len() && (#[trigger] tb_old[k]).text@ == key_seq(items)[g2];
                    assert(tier_b@[k].text@ == key_seq(items)[g2]);
                } else {
                    assert(tier_b@[tier_b@.len() - 1].text@ == key_seq(items)[g2]);
                }
            };
        }
        g = g + 1;
    }
    // Assemble the tiers in order: unique, duplicate representative,
    // payload-bearing.
    let mut arms = tier_a;
    let ghost a0 = arms@;
    let ghost b0 = tier_b@;
    let ghost c0 = tier_c@;
    arms.append(&mut tier_b);
    arms.append(&mut tier_c);
    proof {
        assert(arms@ =~= a0 + b0 + c0);
        assert forall|k: int| 0 <= k < arms@.len() implies arm_ok(schema, #[trigger] arms@[k]) by {
            if k < a0.len() {
                assert(arms@[k] == a0[k]);
            } else if k < a0.len() + b0.len() {
                assert(arms@[k] == b0[k - a0.len()]);
            } else {
                assert(arms@[k] == c0[k - a0.len() - b0.len()]);
            }
        };
        assert forall|i2: int| 0 <= i2 < schema.variants@.len() implies exists|k: int|
            0 <= k < arms@.len() && (#[trigger] arms@[k]).text@ == #[trigger] schema.canon_at(
                i2,
            ) by {
            let v = schema.canon_at(i2);
            assert(items[i2] == v);
            lemma_count_zero(items, v, items.len() as int);
            assert(count_in(items, v) > 0);
            if count_in(items, v) == 1 {
                if exists|k: int| 0 <= k < a0.len() && (#[trigger] a0[k]).text@ == v {
                    let k = choose|k: int| 0 <= k < a0.len() && (#[trigger] a0[k]).text@ == v;
                    assert(arms@[k].text@ == v);
                } else {
                    let k = choose|k: int| 0 <= k < c0.len() && (#[trigger] c0[k]).text@ == v;
                    assert(arms@[a0.len() + b0.len() + k].text@ == v);
                }
            } else {
                lemma_keys_covers(items, v, items.len() as int);
                let g2 = choose|g2: int|
                    0 <= g2 < key_seq(items).len() && #[trigger] key_seq(items)[g2] == v;
                let k = choose|k: int| 0 <= k < b0.len() && (#[trigger] b0[k]).text@ == v;
                assert(arms@[a0.len() + k].text@ == v);
            }
        };
    }
    let c = ConstImpl { schema, arms };
    proof {
        assert(c.wf());
    }
    Ok(c)
}

/// Round trip: a zero-arity variant whose value is unique is recovered by
/// the reverse lookup from its own value, and nothing else can be.
pub proof fn lemma_reverse_roundtrip(c: ConstImpl, i: int)
    requires
        c.wf(),
        0 <= i < c.schema.variants@.len(),
        c.schema.variants@[i].arity == 0,
        count_in(c.schema.canon_seq(), c.schema.canon_at(i)) == 1,
    ensures
        reverse_decision(c.schema, c.schema.canon_at(i)) == Decision::Hit(i),
        forall|r: Result<usize, Error>|
            lookup_matches(c.schema, c.schema.canon_at(i), r) ==> (r matches Ok(k) && k == i),
{
    let items = c.schema.canon_seq();
    assert(items[i] == c.schema.canon_at(i));
    lemma_first_ix_unique(items, c.schema.canon_at(i), i);
}

/// Equality against a raw value goes through the forward accessor's
/// result, and holds in one direction exactly when it holds in the other.
pub proof fn lemma_eq_via_value(c: ConstImpl, i: int, raw: ConstantValue)
    requires
        c.wf(),
        0 <= i < c.schema.variants@.len(),
    ensures
        c.schema.variants@[i].value matches Some(cv) && ((c.schema.canon_at(i) == raw.canon())
            <==> (cv.canon() == raw.canon())),
        (c.schema.canon_at(i) == raw.canon()) <==> (raw.canon() == c.schema.canon_at(i)),
{
    assert(c.schema.variants@[i].value is Some);
}

/// A value shared by two or more variants is never resolved to a variant:
/// the reverse lookup owes the ambiguity error carrying the shared value.
pub proof fn lemma_shared_value_ambiguous(c: ConstImpl, i: int, j: int)
    requires
        c.wf(),
        0 <= i < j < c.schema.variants@.len(),
        c.schema.canon_at(i) == c.schema.canon_at(j),
    ensures
        reverse_decision(c.schema, c.schema.canon_at(i)) == Decision::Ambiguous,
        forall|r: Result<usize, Error>|
            lookup_matches(c.schema, c.schema.canon_at(i), r) ==> (r matches Err(
                Error::UnreachableValue(t),
            ) && t@ == c.schema.canon_at(i)),
{
    let items = c.schema.canon_seq();
    assert(items[i] == c.schema.canon_at(i));
    assert(items[j] == c.schema.canon_at(i));
    crate::prelude::lemma_count_two(
        items,
        c.schema.canon_at(i),
        items.len() as int,
        i,
        j,
    );
}

/// A payload-bearing variant with a unique value is never reconstructed:
/// the reverse lookup owes the incompatibility error carrying the
/// variant's name.
pub proof fn lemma_payload_value_incompatible(c: ConstImpl, i: int)
    requires
        c.wf(),
        0 <= i < c.schema.variants@.len(),
        c.schema.variants@[i].arity > 0,
        count_in(c.schema.canon_seq(), c.schema.canon_at(i)) == 1,
    ensures
        reverse_decision(c.schema, c.schema.canon_at(i)) == Decision::Incompatible(i),
        forall|r: Result<usize, Error>|
            lookup_matches(c.schema, c.schema.canon_at(i), r) ==> (r matches Err(
                Error::UnableToReturnVariant(nm),
            ) && nm@ == c.schema.variants@[i].name@),
{
    let items = c.schema.canon_seq();
    assert(items[i] == c.schema.canon_at(i));
    lemma_first_ix_unique(items, c.schema.canon_at(i), i);
}

/// The classifier drives the reverse lookup: a variant's classification
/// says which outcome the lookup owes for the variant's own value.
pub proof fn lemma_classification_drives_lookup(c: ConstImpl, i: int)
    requires
        c.wf(),
        0 <= i < c.schema.variants@.len(),
    ensures
        match spec_classification(c.schema, i) {
            Classification::AmbiguousGroup => reverse_decision(c.schema, c.schema.canon_at(i))
                is Ambiguous,
            Classification::PayloadBearing => reverse_decision(c.schema, c.schema.canon_at(i))
                == Decision::Incompatible(i),
            Classification::UniqueNoPayload => reverse_decision(c.schema, c.schema.canon_at(i))
                == Decision::Hit(i),
        },
{
    let items = c.schema.canon_seq();
    assert(items[i] == c.schema.canon_at(i));
    lemma_count_zero(items, c.schema.canon_at(i), items.len() as int);
    if count_in(items, c.schema.canon_at(i)) == 1 {
        lemma_first_ix_unique(items, c.schema.canon_at(i), i);
    }
}

/// A raw value matching no variant's value is rejected: the reverse lookup
/// owes the invalid-value error carrying the raw value and the union's
/// name.
pub proof fn lemma_unknown_value_invalid(c: ConstImpl, raw: Seq<char>)
    requires
        c.wf(),
        forall|i: int| 0 <= i < c.schema.variants@.len() ==> #[trigger] c.schema.canon_at(i) != raw,
    ensures
        reverse_decision(c.schema, raw) == Decision::Miss,
        forall|r: Result<usize, Error>|
            lookup_matches(c.schema, raw, r) ==> (r matches Err(Error::InvalidValue(t, u)) && t@
                == raw && u@ == c.schema.name@),
{
    let items = c.schema.canon_seq();
    lemma_count_zero(items, raw, items.len() as int);
    assert(forall|k: int| 0 <= k < items.len() ==> #[trigger] items[k] != raw);
}

} // verus!
