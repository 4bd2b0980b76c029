//! Canonical texts of literals and token sequences.

use thisenum::token::{lit_text, tokens_text, Lit, Token};

#[test]
fn integer_literals_keep_their_spelling() {
    assert_eq!(lit_text(&Lit::Int { text: "0xAA".to_string() }), "0xAA");
    assert_eq!(lit_text(&Lit::Int { text: "-3".to_string() }), "-3");
}

#[test]
fn string_literals_are_quoted() {
    assert_eq!(lit_text(&Lit::Str { value: "test3".to_string() }), "\"test3\"");
    assert_eq!(lit_text(&Lit::Str { value: "".to_string() }), "\"\"");
}

#[test]
fn byte_string_literals_render_two_hex_digits_per_byte() {
    let l = Lit::byte_str(&vec![0x00u8, 0x01u8, 0x7fu8]);
    assert_eq!(lit_text(&l), "b\"\\x00\\x01\\x7f\"");
    let empty = Lit::byte_str(&vec![]);
    assert_eq!(lit_text(&empty), "b\"\"");
    let high = Lit::byte_str(&vec![0xbau8, 0x5eu8]);
    assert_eq!(lit_text(&high), "b\"\\xba\\x5e\"");
}

#[test]
fn boolean_literals() {
    assert_eq!(lit_text(&Lit::Bool { value: true }), "true");
    assert_eq!(lit_text(&Lit::Bool { value: false }), "false");
}

#[test]
fn token_sequences_join_with_single_spaces() {
    let ts = vec![
        Token::Punct { ch: '&' },
        Token::Punct { ch: '[' },
        Token::Ident { text: "u8".to_string() },
        Token::Punct { ch: ']' },
    ];
    assert_eq!(tokens_text(&ts), "& [ u8 ]");
    let empty: Vec<Token> = vec![];
    assert_eq!(tokens_text(&empty), "");
    let one = vec![Token::Ident { text: "i32".to_string() }];
    assert_eq!(tokens_text(&one), "i32");
}
