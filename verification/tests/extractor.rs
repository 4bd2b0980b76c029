//! The literal/type extractor and the schema builder's validation.

use thisenum::token::{Lit, Token, tokens_text};
use thisenum::decl::{AttrDecl, DeclData, UnionDecl, VariantDecl};
use thisenum::extract::{get_deref_type, get_type, get_val, DeriveError};
use thisenum::schema::build_uniform_schema;

fn int_lit(text: &str) -> Token {
    Token::Literal { lit: Lit::Int { text: text.to_string() } }
}

fn ident(text: &str) -> Token {
    Token::Ident { text: text.to_string() }
}

fn punct(ch: char) -> Token {
    Token::Punct { ch }
}

#[test]
fn value_from_name_value_form() {
    let attrs = vec![AttrDecl { path: "value".to_string(), tokens: vec![punct('='), int_lit("42")] }];
    let v = get_val("Const", &attrs).unwrap();
    assert_eq!(tokens_text(&v), "42");
}

#[test]
fn value_from_list_form_concatenates_items() {
    let attrs = vec![AttrDecl {
        path: "value".to_string(),
        tokens: vec![punct('('), int_lit("1"), punct(','), int_lit("2"), punct(')')],
    }];
    let v = get_val("Const", &attrs).unwrap();
    assert_eq!(tokens_text(&v), "1 2");
}

#[test]
fn value_list_accepts_paths_and_trailing_comma() {
    let attrs = vec![AttrDecl {
        path: "value".to_string(),
        tokens: vec![
            punct('('),
            ident("a"),
            punct(':'),
            punct(':'),
            ident("b"),
            punct(','),
            int_lit("3"),
            punct(','),
            punct(')'),
        ],
    }];
    let v = get_val("Const", &attrs).unwrap();
    assert_eq!(tokens_text(&v), "a : : b 3");
}

#[test]
fn value_from_bare_path_form() {
    let attrs = vec![AttrDecl { path: "value".to_string(), tokens: vec![] }];
    let v = get_val("Const", &attrs).unwrap();
    assert_eq!(tokens_text(&v), "value");
}

#[test]
fn value_rejects_non_literal_shapes() {
    // `value = <ident>` is not a literal.
    let attrs = vec![AttrDecl { path: "value".to_string(), tokens: vec![punct('='), ident("x")] }];
    assert!(matches!(get_val("Const", &attrs), Err(DeriveError::NonLiteralValue)));
    // A broken list shape.
    let attrs = vec![AttrDecl {
        path: "value".to_string(),
        tokens: vec![punct('('), punct(','), int_lit("1"), punct(')')],
    }];
    assert!(matches!(get_val("Const", &attrs), Err(DeriveError::NonLiteralValue)));
}

#[test]
fn value_missing_reports_the_mode() {
    let attrs: Vec<AttrDecl> = vec![];
    match get_val("Const", &attrs) {
        Err(DeriveError::MissingValue(n)) => assert_eq!(n, "Const"),
        other => panic!("expected the missing-value error, got {:?}", other),
    }
}

#[test]
fn first_value_attribute_decides() {
    let attrs = vec![
        AttrDecl { path: "other".to_string(), tokens: vec![] },
        AttrDecl { path: "value".to_string(), tokens: vec![punct('='), int_lit("1")] },
        AttrDecl { path: "value".to_string(), tokens: vec![punct('='), int_lit("2")] },
    ];
    let v = get_val("Const", &attrs).unwrap();
    assert_eq!(tokens_text(&v), "1");
}

#[test]
fn deref_type_strips_one_indirection_marker() {
    let attrs = vec![AttrDecl {
        path: "armtype".to_string(),
        tokens: vec![punct('('), punct('&'), punct('['), ident("u8"), punct(']'), punct(')')],
    }];
    let (tokens, deref) = get_deref_type(&attrs).unwrap();
    assert!(deref);
    assert_eq!(tokens_text(&tokens), "[ u8 ]");
    // The raw form keeps the marker.
    let raw = get_type(&attrs).unwrap();
    assert_eq!(tokens_text(&raw), "& [ u8 ]");
}

#[test]
fn non_reference_type_is_not_stripped() {
    let attrs = vec![AttrDecl {
        path: "armtype".to_string(),
        tokens: vec![punct('('), ident("i32"), punct(')')],
    }];
    let (tokens, deref) = get_deref_type(&attrs).unwrap();
    assert!(!deref);
    assert_eq!(tokens_text(&tokens), "i32");
}

#[test]
fn unparsable_type_annotation_is_absent_not_an_error() {
    // No parentheses at all.
    let attrs = vec![AttrDecl { path: "armtype".to_string(), tokens: vec![punct('='), ident("u8")] }];
    assert!(get_deref_type(&attrs).is_none());
    assert!(get_type(&attrs).is_none());
    // Empty parentheses hold no type expression.
    let attrs = vec![AttrDecl { path: "armtype".to_string(), tokens: vec![punct('('), punct(')')] }];
    assert!(get_deref_type(&attrs).is_none());
    // A literal is not a type expression.
    let attrs = vec![AttrDecl {
        path: "armtype".to_string(),
        tokens: vec![punct('('), int_lit("5"), punct(')')],
    }];
    assert!(get_deref_type(&attrs).is_none());
}

#[test]
fn builder_rejects_non_union_targets() {
    let u = UnionDecl { name: "S".to_string(), attrs: vec![], data: DeclData::Other };
    match build_uniform_schema(&u) {
        Err(DeriveError::DeriveForNonEnum(n)) => assert_eq!(n, "Const"),
        other => panic!("expected the non-union error, got {:?}", other),
    }
}

#[test]
fn builder_requires_the_union_level_type() {
    let u = UnionDecl {
        name: "NoType".to_string(),
        attrs: vec![],
        data: DeclData::Variants(vec![VariantDecl {
            name: "A".to_string(),
            arity: 0,
            attrs: vec![AttrDecl { path: "value".to_string(), tokens: vec![punct('='), int_lit("1")] }],
        }]),
    };
    match build_uniform_schema(&u) {
        Err(DeriveError::MissingArmType(place, mode)) => {
            assert_eq!(place, "applied to enum");
            assert_eq!(mode, "Const");
        }
        other => panic!("expected the missing-type error, got {:?}", other),
    }
}

#[test]
fn builder_requires_a_value_on_every_variant() {
    let armtype = AttrDecl {
        path: "armtype".to_string(),
        tokens: vec![punct('('), ident("i32"), punct(')')],
    };
    let u = UnionDecl {
        name: "Gap".to_string(),
        attrs: vec![armtype],
        data: DeclData::Variants(vec![
            VariantDecl {
                name: "A".to_string(),
                arity: 0,
                attrs: vec![AttrDecl { path: "value".to_string(), tokens: vec![punct('='), int_lit("1")] }],
            },
            VariantDecl { name: "B".to_string(), arity: 0, attrs: vec![] },
        ]),
    };
    match build_uniform_schema(&u) {
        Err(DeriveError::MissingValue(n)) => assert_eq!(n, "Const"),
        other => panic!("expected the missing-value error, got {:?}", other),
    }
}

#[test]
fn builder_fails_atomically_on_a_non_literal_value() {
    let armtype = AttrDecl {
        path: "armtype".to_string(),
        tokens: vec![punct('('), ident("i32"), punct(')')],
    };
    let bad_value = AttrDecl { path: "value".to_string(), tokens: vec![punct('='), ident("x")] };
    let u = UnionDecl {
        name: "Bad".to_string(),
        attrs: vec![armtype],
        data: DeclData::Variants(vec![VariantDecl {
            name: "A".to_string(),
            arity: 0,
            attrs: vec![bad_value],
        }]),
    };
    assert!(matches!(build_uniform_schema(&u), Err(DeriveError::NonLiteralValue)));
}
