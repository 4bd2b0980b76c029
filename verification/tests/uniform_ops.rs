//! The generated operations of `Uniform` mode, on concrete unions.

use thisenum::Error;
use thisenum::token::{Lit, Token};
use thisenum::decl::{AttrDecl, DeclData, UnionDecl, VariantDecl};
use thisenum::schema::ConstantValue;
use thisenum::uniform::thisenum_const;

fn value_int_attr(text: &str) -> AttrDecl {
    AttrDecl {
        path: "value".to_string(),
        tokens: vec![
            Token::Punct { ch: '=' },
            Token::Literal { lit: Lit::Int { text: text.to_string() } },
        ],
    }
}

fn value_bytes_attr(bytes: &[u8]) -> AttrDecl {
    AttrDecl {
        path: "value".to_string(),
        tokens: vec![
            Token::Punct { ch: '=' },
            Token::Literal { lit: Lit::byte_str(&bytes.to_vec()) },
        ],
    }
}

fn armtype_ident_attr(text: &str) -> AttrDecl {
    AttrDecl {
        path: "armtype".to_string(),
        tokens: vec![
            Token::Punct { ch: '(' },
            Token::Ident { text: text.to_string() },
            Token::Punct { ch: ')' },
        ],
    }
}

fn armtype_byte_slice_attr() -> AttrDecl {
    AttrDecl {
        path: "armtype".to_string(),
        tokens: vec![
            Token::Punct { ch: '(' },
            Token::Punct { ch: '&' },
            Token::Punct { ch: '[' },
            Token::Ident { text: "u8".to_string() },
            Token::Punct { ch: ']' },
            Token::Punct { ch: ')' },
        ],
    }
}

fn variant(name: &str, arity: usize, attrs: Vec<AttrDecl>) -> VariantDecl {
    VariantDecl { name: name.to_string(), arity, attrs }
}

fn int_value(text: &str) -> ConstantValue {
    ConstantValue {
        tokens: vec![Token::Literal { lit: Lit::Int { text: text.to_string() } }],
    }
}

fn bytes_value(bytes: &[u8]) -> ConstantValue {
    ConstantValue { tokens: vec![Token::Literal { lit: Lit::byte_str(&bytes.to_vec()) }] }
}

fn tag_union() -> UnionDecl {
    UnionDecl {
        name: "Tag".to_string(),
        attrs: vec![armtype_byte_slice_attr()],
        data: DeclData::Variants(vec![
            variant("Key", 0, vec![value_bytes_attr(&[0, 1, 127])]),
            variant("Length", 0, vec![value_bytes_attr(&[186, 94])]),
            variant("Data", 0, vec![value_bytes_attr(&[0, 1, 2, 3, 4, 5, 6, 7, 8, 9, 10, 11, 12, 13, 14, 15])]),
        ]),
    }
}

#[test]
fn tag_forward_accessor_returns_declared_literal() {
    let c = thisenum_const(&tag_union()).unwrap();
    assert_eq!(c.variant_count(), 3);
    // The forward accessor returns exactly the declared literal.
    assert_eq!(c.value(0).text(), bytes_value(&[0, 1, 127]).text());
    assert_eq!(c.value(1).text(), bytes_value(&[186, 94]).text());
    assert!(c.eq_value(0, &bytes_value(&[0, 1, 127])));
    assert!(!c.eq_value(0, &bytes_value(&[186, 94])));
}

#[test]
fn tag_reverse_lookup_unique_values() {
    let c = thisenum_const(&tag_union()).unwrap();
    assert!(matches!(c.try_from_value(&bytes_value(&[186, 94])), Ok(1)));
    assert!(matches!(c.try_from_value(&bytes_value(&[0, 1, 127])), Ok(0)));
}

#[test]
fn tag_reverse_lookup_unknown_value() {
    let c = thisenum_const(&tag_union()).unwrap();
    match c.try_from_value(&bytes_value(&[9, 9])) {
        Err(Error::InvalidValue(raw, union_name)) => {
            assert_eq!(raw, bytes_value(&[9, 9]).text());
            assert_eq!(union_name, "Tag");
        }
        other => panic!("expected the invalid-value error, got {:?}", other),
    }
}

#[test]
fn flag_shared_value_is_ambiguous() {
    // Two zero-arity variants both valued 5.
    let flag = UnionDecl {
        name: "Flag".to_string(),
        attrs: vec![armtype_ident_attr("i32")],
        data: DeclData::Variants(vec![
            variant("Dup1", 0, vec![value_int_attr("5")]),
            variant("Dup2", 0, vec![value_int_attr("5")]),
        ]),
    };
    let c = thisenum_const(&flag).unwrap();
    // The forward accessor still returns each variant's declared value.
    assert_eq!(c.value(0).text(), "5");
    assert_eq!(c.value(1).text(), "5");
    // The reverse lookup never returns Ok for a shared value.
    match c.try_from_value(&int_value("5")) {
        Err(Error::UnreachableValue(t)) => assert_eq!(t, "5"),
        other => panic!("expected the ambiguity error, got {:?}", other),
    }
}

#[test]
fn mixed_payload_and_unit_variants() {
    // Arm1 carries four payload fields and the value [10]; Arm2 is a unit
    // variant with the value [20].
    let mixed = UnionDecl {
        name: "Mixed".to_string(),
        attrs: vec![armtype_byte_slice_attr()],
        data: DeclData::Variants(vec![
            variant("Arm1", 4, vec![value_bytes_attr(&[10])]),
            variant("Arm2", 0, vec![value_bytes_attr(&[20])]),
        ]),
    };
    let c = thisenum_const(&mixed).unwrap();
    match c.try_from_value(&bytes_value(&[10])) {
        Err(Error::UnableToReturnVariant(name)) => assert_eq!(name, "Arm1"),
        other => panic!("expected the incompatibility error, got {:?}", other),
    }
    assert!(matches!(c.try_from_value(&bytes_value(&[20])), Ok(1)));
}

#[test]
fn equality_is_symmetric() {
    let c = thisenum_const(&tag_union()).unwrap();
    let raw = bytes_value(&[186, 94]);
    assert_eq!(c.eq_value(1, &raw), c.value_eq(&raw, 1));
    let other = bytes_value(&[9, 9]);
    assert_eq!(c.eq_value(1, &other), c.value_eq(&other, 1));
    assert!(!c.eq_value(1, &other));
}

#[test]
fn debug_text_renders_union_variant_and_value() {
    let my_enum = UnionDecl {
        name: "MyEnum".to_string(),
        attrs: vec![armtype_ident_attr("i32")],
        data: DeclData::Variants(vec![
            variant("A", 0, vec![value_int_attr("0")]),
            variant("B", 0, vec![value_int_attr("1")]),
        ]),
    };
    let c = thisenum_const(&my_enum).unwrap();
    assert_eq!(c.debug_text(0), "MyEnum::A: 0");
    assert_eq!(c.debug_text(1), "MyEnum::B: 1");
}

#[test]
fn into_value_only_for_non_reference_types() {
    let my_enum = UnionDecl {
        name: "MyEnum".to_string(),
        attrs: vec![armtype_ident_attr("i32")],
        data: DeclData::Variants(vec![variant("A", 0, vec![value_int_attr("0")])]),
    };
    let c = thisenum_const(&my_enum).unwrap();
    let copied = c.into_value(0).expect("a non-reference type converts");
    assert_eq!(copied.text(), "0");
    // A reference type cannot be moved out of static storage.
    let t = thisenum_const(&tag_union()).unwrap();
    assert!(t.into_value(0).is_none());
}

#[test]
fn duplicate_group_with_payload_member_stays_ambiguous() {
    // A value shared between a payload-bearing variant and a unit variant:
    // duplicate-group exclusion comes before the payload classification.
    let u = UnionDecl {
        name: "Overlap".to_string(),
        attrs: vec![armtype_ident_attr("i32")],
        data: DeclData::Variants(vec![
            variant("WithPayload", 2, vec![value_int_attr("7")]),
            variant("Plain", 0, vec![value_int_attr("7")]),
            variant("Lone", 0, vec![value_int_attr("8")]),
        ]),
    };
    let c = thisenum_const(&u).unwrap();
    assert!(matches!(
        c.try_from_value(&int_value("7")),
        Err(Error::UnreachableValue(_))
    ));
    assert!(matches!(c.try_from_value(&int_value("8")), Ok(2)));
}

#[test]
fn run_the_worked_example() {
    assert!(thisenum::demo::main3());
}
