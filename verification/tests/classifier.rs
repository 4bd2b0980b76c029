//! Duplicate groups and per-variant classification on a concrete union.

use thisenum::token::{Lit, Token};
use thisenum::decl::{AttrDecl, DeclData, UnionDecl, VariantDecl};
use thisenum::classify::{classify_variants, duplicate_groups, Classification};
use thisenum::schema::build_uniform_schema;

fn value_int_attr(text: &str) -> AttrDecl {
    AttrDecl {
        path: "value".to_string(),
        tokens: vec![
            Token::Punct { ch: '=' },
            Token::Literal { lit: Lit::Int { text: text.to_string() } },
        ],
    }
}

fn armtype_i32_attr() -> AttrDecl {
    AttrDecl {
        path: "armtype".to_string(),
        tokens: vec![
            Token::Punct { ch: '(' },
            Token::Ident { text: "i32".to_string() },
            Token::Punct { ch: ')' },
        ],
    }
}

fn variant(name: &str, arity: usize, value: &str) -> VariantDecl {
    VariantDecl { name: name.to_string(), arity, attrs: vec![value_int_attr(value)] }
}

fn sample_union() -> UnionDecl {
    UnionDecl {
        name: "Sample".to_string(),
        attrs: vec![armtype_i32_attr()],
        data: DeclData::Variants(vec![
            variant("Plain", 0, "5"),
            variant("WithPayload", 2, "6"),
            variant("Twin", 0, "5"),
            variant("Lone", 0, "7"),
        ]),
    }
}

#[test]
fn duplicate_groups_by_canonical_text() {
    let s = build_uniform_schema(&sample_union()).unwrap();
    let groups = duplicate_groups(&s);
    assert_eq!(groups.len(), 3);
    assert_eq!(groups[0].text, "5");
    assert_eq!(groups[0].indices, vec![0, 2]);
    assert_eq!(groups[1].text, "6");
    assert_eq!(groups[1].indices, vec![1]);
    assert_eq!(groups[2].text, "7");
    assert_eq!(groups[2].indices, vec![3]);
}

#[test]
fn classification_prefers_duplicate_groups_over_payload() {
    let s = build_uniform_schema(&sample_union()).unwrap();
    let classes = classify_variants(&s);
    assert_eq!(
        classes,
        vec![
            Classification::AmbiguousGroup,
            Classification::PayloadBearing,
            Classification::AmbiguousGroup,
            Classification::UniqueNoPayload,
        ]
    );
}

#[test]
fn payload_variant_in_a_duplicate_group_is_ambiguous() {
    let u = UnionDecl {
        name: "Overlap".to_string(),
        attrs: vec![armtype_i32_attr()],
        data: DeclData::Variants(vec![variant("Args", 3, "9"), variant("Unit", 0, "9")]),
    };
    let s = build_uniform_schema(&u).unwrap();
    let classes = classify_variants(&s);
    assert_eq!(
        classes,
        vec![Classification::AmbiguousGroup, Classification::AmbiguousGroup]
    );
}
