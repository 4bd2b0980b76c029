//! Typed retrieval in `PerVariant` mode, on concrete unions.

use thisenum::token::{Lit, Token};
use thisenum::decl::{AttrDecl, DeclData, UnionDecl, VariantDecl};
use thisenum::hetero::{thisenum_const_each, TypeId};

fn value_attr(lit: Lit) -> AttrDecl {
    AttrDecl {
        path: "value".to_string(),
        tokens: vec![Token::Punct { ch: '=' }, Token::Literal { lit }],
    }
}

fn armtype_ident_attr(text: &str) -> AttrDecl {
    AttrDecl {
        path: "armtype".to_string(),
        tokens: vec![
            Token::Punct { ch: '(' },
            Token::Ident { text: text.to_string() },
            Token::Punct { ch: ')' },
        ],
    }
}

fn named_type(idents: &[&str], reference: bool) -> TypeId {
    let mut tokens: Vec<Token> = Vec::new();
    if reference {
        tokens.push(Token::Punct { ch: '&' });
    }
    for id in idents {
        tokens.push(Token::Ident { text: id.to_string() });
    }
    TypeId::named(&tokens)
}

fn my_enum() -> UnionDecl {
    // A: declared 8-bit unsigned type, value 0xAA; B: no declared type,
    // value "test3".
    UnionDecl {
        name: "MyEnum".to_string(),
        attrs: vec![],
        data: DeclData::Variants(vec![
            VariantDecl {
                name: "A".to_string(),
                arity: 0,
                attrs: vec![
                    armtype_ident_attr("u8"),
                    value_attr(Lit::Int { text: "0xAA".to_string() }),
                ],
            },
            VariantDecl {
                name: "B".to_string(),
                arity: 0,
                attrs: vec![value_attr(Lit::Str { value: "test3".to_string() })],
            },
        ]),
    }
}

#[test]
fn declared_type_matches_exactly() {
    let c = thisenum_const_each(&my_enum()).unwrap();
    assert_eq!(c.variant_count(), 2);
    let got = c.value_typed(0, &named_type(&["u8"], false));
    assert_eq!(got.expect("the declared type matches").text(), "0xAA");
}

#[test]
fn wider_type_never_matches() {
    let c = thisenum_const_each(&my_enum()).unwrap();
    // Not even a compatible numeric widening is accepted.
    assert!(c.value_typed(0, &named_type(&["u32"], false)).is_none());
    assert!(c.value_typed(0, &named_type(&["u64"], false)).is_none());
}

#[test]
fn inferred_string_type_matches() {
    let c = thisenum_const_each(&my_enum()).unwrap();
    let got = c.value_typed(1, &named_type(&["str"], true));
    assert_eq!(got.expect("the inferred type matches").text(), "\"test3\"");
    assert!(c.value_typed(1, &named_type(&["u8"], false)).is_none());
}

#[test]
fn inferred_byte_string_type_is_its_length() {
    let tags = UnionDecl {
        name: "Tags".to_string(),
        attrs: vec![],
        data: DeclData::Variants(vec![VariantDecl {
            name: "Key".to_string(),
            arity: 0,
            attrs: vec![value_attr(Lit::byte_str(&vec![0u8, 1u8]))],
        }]),
    };
    let c = thisenum_const_each(&tags).unwrap();
    assert!(c.value_typed(0, &TypeId::byte_array(2)).is_some());
    assert!(c.value_typed(0, &TypeId::byte_array(5)).is_none());
    assert!(c.value_typed(0, &named_type(&["u8"], false)).is_none());
}

#[test]
fn variant_without_value_yields_nothing() {
    let u = UnionDecl {
        name: "Partial".to_string(),
        attrs: vec![],
        data: DeclData::Variants(vec![VariantDecl {
            name: "NoValue".to_string(),
            arity: 0,
            attrs: vec![],
        }]),
    };
    let c = thisenum_const_each(&u).unwrap();
    assert!(c.value_typed(0, &named_type(&["u8"], false)).is_none());
    assert!(c.value_typed(0, &named_type(&["str"], true)).is_none());
}

#[test]
fn per_variant_mode_rejects_non_unions() {
    let u = UnionDecl {
        name: "NotAUnion".to_string(),
        attrs: vec![],
        data: DeclData::Other,
    };
    match thisenum_const_each(&u) {
        Err(thisenum::extract::DeriveError::DeriveForNonEnum(n)) => assert_eq!(n, "ConstEach"),
        other => panic!("expected the non-union error, got {:?}", other),
    }
}
