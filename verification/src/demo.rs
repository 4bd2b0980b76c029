//! A worked example: two sample unions run through the `Uniform`-mode
//! generator, with their generated operations exercised on concrete
//! values.

use vstd::prelude::*;
use vstd::string::StringExecFns;
use crate::token::{Token, Lit};
use crate::decl::{AttrDecl, VariantDecl, DeclData, UnionDecl};
use crate::schema::ConstantValue;
use crate::uniform::thisenum_const;

verus! {

/// A `value = <integer literal>` annotation.
fn value_int_attr(text: &str) -> AttrDecl {
    AttrDecl {
        path: String::from_str("value"),
        tokens: vec![
            Token::Punct { ch: '=' },
            Token::Literal { lit: Lit::Int { text: String::from_str(text) } },
        ],
    }
}

/// A `value = <byte-string literal>` annotation.
fn value_bytes_attr(bytes: Vec<u8>) -> AttrDecl {
    AttrDecl {
        path: String::from_str("value"),
        tokens: vec![Token::Punct { ch: '=' }, Token::Literal { lit: Lit::byte_str(&bytes) }],
    }
}

/// An `armtype(<ident>)` annotation.
fn armtype_ident_attr(text: &str) -> AttrDecl {
    AttrDecl {
        path: String::from_str("armtype"),
        tokens: vec![
            Token::Punct { ch: '(' },
            Token::Ident { text: String::from_str(text) },
            Token::Punct { ch: ')' },
        ],
    }
}

/// An `armtype(&[u8])` annotation.
fn armtype_byte_slice_attr() -> AttrDecl {
    AttrDecl {
        path: String::from_str("armtype"),
        tokens: vec![
            Token::Punct { ch: '(' },
            Token::Punct { ch: '&' },
            Token::Punct { ch: '[' },
            Token::Ident { text: String::from_str("u8") },
            Token::Punct { ch: ']' },
            Token::Punct { ch: ')' },
        ],
    }
}

/// A zero-arity variant declaration with one annotation.
fn unit_variant(name: &str, attr: AttrDecl) -> VariantDecl {
    VariantDecl { name: String::from_str(name), arity: 0, attrs: vec![attr] }
}

/// A constant value holding one integer literal.
fn int_value(text: &str) -> ConstantValue {
    ConstantValue {
        tokens: vec![Token::Literal { lit: Lit::Int { text: String::from_str(text) } }],
    }
}

/// A constant value holding one byte-string literal.
fn bytes_value(bytes: Vec<u8>) -> ConstantValue {
    ConstantValue { tokens: vec![Token::Literal { lit: Lit::byte_str(&bytes) }] }
}

/// Runs the generator on two sample unions — one with an `i32` value type,
/// one with a reference byte-sequence type — and exercises the forward
/// accessor, the equality operations and the reverse lookup on their
/// declared values. Returns whether every check passed.
pub fn main3() -> (ok: bool) {
    // MyEnum, with armtype i32: A = 0, B = 1.
    let my_enum = UnionDecl {
        name: String::from_str("MyEnum"),
        attrs: vec![armtype_ident_attr("i32")],
        data: DeclData::Variants(
            vec![unit_variant("A", value_int_attr("0")), unit_variant("B", value_int_attr("1"))],
        ),
    };
    let c = match thisenum_const(&my_enum) {
        Ok(c) => c,
        Err(_) => {
            return false;
        },
    };
    if c.variant_count() != 2 {
        return false;
    }
    let mut ok = true;
    // The preferred way: the forward accessor, compared against the value.
    ok = ok && c.eq_value(0, &int_value("0"));
    ok = ok && c.eq_value(1, &int_value("1"));
    ok = ok && !c.eq_value(0, &int_value("1"));
    // Reverse lookup recovers each variant from its unique value.
    ok = ok && match c.try_from_value(&int_value("0")) {
        Ok(k) => k == 0,
        Err(_) => false,
    };
    ok = ok && match c.try_from_value(&int_value("1")) {
        Ok(k) => k == 1,
        Err(_) => false,
    };

    // Tags, with armtype &[u8]: Key, Length and Data carry byte strings.
    let tags = UnionDecl {
        name: String::from_str("Tags"),
        attrs: vec![armtype_byte_slice_attr()],
        data: DeclData::Variants(
            vec![
                unit_variant("Key", value_bytes_attr(vec![0x00u8, 0x01u8, 0x7fu8])),
                unit_variant("Length", value_bytes_attr(vec![0xbau8, 0x5eu8])),
                unit_variant(
                    "Data",
                    value_bytes_attr(
                        vec![
                            0x00u8,
                            0x01u8,
                            0x02u8,
                            0x03u8,
                            0x04u8,
                            0x05u8,
                            0x06u8,
                            0x07u8,
                            0x08u8,
                            0x09u8,
                            0x0au8,
                            0x0bu8,
                            0x0cu8,
                            0x0du8,
                            0x0eu8,
                            0x0fu8,
                        ],
                    ),
                ),
            ],
        ),
    };
    let t = match thisenum_const(&tags) {
        Ok(t) => t,
        Err(_) => {
            return false;
        },
    };
    if t.variant_count() != 3 {
        return false;
    }
    ok = ok && t.eq_value(0, &bytes_value(vec![0x00u8, 0x01u8, 0x7fu8]));
    ok = ok && t.eq_value(1, &bytes_value(vec![0xbau8, 0x5eu8]));
    ok = ok && t.eq_value(
        2,
        &bytes_value(
            vec![
                0x00u8,
                0x01u8,
                0x02u8,
                0x03u8,
                0x04u8,
                0x05u8,
                0x06u8,
                0x07u8,
                0x08u8,
                0x09u8,
                0x0au8,
                0x0bu8,
                0x0cu8,
                0x0du8,
                0x0eu8,
                0x0fu8,
            ],
        ),
    );
    // Equality holds in the mirrored direction too.
    ok = ok && t.value_eq(&bytes_value(vec![0xbau8, 0x5eu8]), 1);
    ok
}

} // verus!
