//! The token model for annotation syntax.
//!
//! Annotations are carried as flat sequences of tokens; delimiters are
//! ordinary punctuation tokens. Every token has a canonical text, and the
//! canonical text of a token sequence joins the tokens' texts with single
//! spaces. Constant values are compared by canonical text only and are
//! never evaluated.

use vstd::prelude::*;
use vstd::string::StringExecFns;

verus! {

/// Relies on `String::push` of std: appends the given character to the end
/// of the string.
pub assume_specification[ String::push ](s: &mut String, ch: char)
    ensures
        final(s)@ == old(s)@.push(ch),
;

/// One constant literal: an opaque token with a canonical textual form,
/// given by [`lit_canon`]. A literal is never evaluated; only its canonical
/// text takes part in equality grouping.
#[derive(Debug, Clone)]
pub enum Lit {
    /// An integer literal, spelled exactly as written (`5`, `0xAA`, `-3`).
    Int { text: String },
    /// A string literal; `value` is the content between the quotes.
    Str { value: String },
    /// A byte-string literal: its canonical source text and its byte count.
    /// [`Lit::byte_str`] builds both from the content bytes.
    ByteStr { text: String, len: usize },
    /// A boolean literal.
    Bool { value: bool },
}

/// One token of annotation syntax.
#[derive(Debug, Clone)]
pub enum Token {
    /// An identifier, such as a path segment or a type name.
    Ident { text: String },
    /// A single punctuation character, delimiters included.
    Punct { ch: char },
    /// A constant literal.
    Literal { lit: Lit },
}

/// The lower-case hexadecimal digit for `n < 16`.
pub open spec fn hex_digit(n: u8) -> char {
    if n == 0 {
        '0'
    } else if n == 1 {
        '1'
    } else if n == 2 {
        '2'
    } else if n == 3 {
        '3'
    } else if n == 4 {
        '4'
    } else if n == 5 {
        '5'
    } else if n == 6 {
        '6'
    } else if n == 7 {
        '7'
    } else if n == 8 {
        '8'
    } else if n == 9 {
        '9'
    } else if n == 10 {
        'a'
    } else if n == 11 {
        'b'
    } else if n == 12 {
        'c'
    } else if n == 13 {
        'd'
    } else if n == 14 {
        'e'
    } else {
        'f'
    }
}

/// The canonical escape of one byte inside a byte-string literal.
pub open spec fn byte_escape(b: u8) -> Seq<char> {
    seq!['\\', 'x', hex_digit(b / 16), hex_digit(b % 16)]
}

/// The canonical escapes of a whole byte sequence, concatenated.
pub open spec fn bytes_escaped(bs: Seq<u8>) -> Seq<char>
    decreases bs.len(),
{
    if bs.len() == 0 {
        Seq::empty()
    } else {
        bytes_escaped(bs.drop_last()) + byte_escape(bs.last())
    }
}

/// The canonical text of a byte-string literal with the given content.
pub open spec fn byte_str_canon(bs: Seq<u8>) -> Seq<char> {
    seq!['b', '"'] + bytes_escaped(bs) + seq!['"']
}

/// The canonical text of a literal.
pub open spec fn lit_canon(l: Lit) -> Seq<char> {
    match l {
        Lit::Int { text } => text@,
        Lit::Str { value } => seq!['"'] + value@ + seq!['"'],
        Lit::ByteStr { text, .. } => text@,
        Lit::Bool { value } => if value {
            "true"@
        } else {
            "false"@
        },
    }
}

/// The canonical text of a token.
pub open spec fn token_canon(t: Token) -> Seq<char> {
    match t {
        Token::Ident { text } => text@,
        Token::Punct { ch } => seq![ch],
        Token::Literal { lit } => lit_canon(lit),
    }
}

/// The canonical text of a token sequence: the tokens' texts joined with
/// single spaces.
pub open spec fn tokens_canon(ts: Seq<Token>) -> Seq<char>
    decreases ts.len(),
{
    if ts.len() == 0 {
        Seq::empty()
    } else if ts.len() == 1 {
        token_canon(ts[0])
    } else {
        tokens_canon(ts.drop_last()) + seq![' '] + token_canon(ts.last())
    }
}

/// Joining a nonempty prefix with one more token appends a space and the
/// token's text.
pub proof fn lemma_tokens_canon_step(ts: Seq<Token>, i: int)
    requires
        0 <= i < ts.len(),
    ensures
        tokens_canon(ts.take(i + 1)) == if i == 0 {
            token_canon(ts[0])
        } else {
            tokens_canon(ts.take(i)) + seq![' '] + token_canon(ts[i])
        },
{
    let pre = ts.take(i + 1);
    assert(pre.drop_last() =~= ts.take(i));
    assert(pre.last() == ts[i]);
    if i == 0 {
        assert(tokens_canon(pre) == token_canon(pre[0]));
    }
}

fn hex_digit_char(n: u8) -> (r: char)
    requires
        n < 16,
    ensures
        r == hex_digit(n),
{
    if n == 0 {
        '0'
    } else if n == 1 {
        '1'
    } else if n == 2 {
        '2'
    } else if n == 3 {
        '3'
    } else if n == 4 {
        '4'
    } else if n == 5 {
        '5'
    } else if n == 6 {
        '6'
    } else if n == 7 {
        '7'
    } else if n == 8 {
        '8'
    } else if n == 9 {
        '9'
    } else if n == 10 {
        'a'
    } else if n == 11 {
        'b'
    } else if n == 12 {
        'c'
    } else if n == 13 {
        'd'
    } else if n == 14 {
        'e'
    } else {
        'f'
    }
}

impl Lit {
    /// Builds a byte-string literal from its content bytes, rendering the
    /// canonical escape text.
    pub fn byte_str(bytes: &Vec<u8>) -> (r: Lit)
        ensures
            r matches Lit::ByteStr { text, len } && text@ == byte_str_canon(bytes@) && len
                == bytes@.len(),
            lit_canon(r) == byte_str_canon(bytes@),
    {
        let mut s = String::from_str("b\"");
        proof {
            reveal_strlit("b\"");
            assert(bytes@.take(0) =~= Seq::<u8>::empty());
            assert(s@ =~= seq!['b', '"'] + bytes_escaped(bytes@.take(0)));
        }
        let mut i: usize = 0;
        while i < bytes.len()
            invariant
                i <= bytes.len(),
                s@ == seq!['b', '"'] + bytes_escaped(bytes@.take(i as int)),
            decreases bytes.len() - i,
        {
            let b = bytes[i];
            s.push('\\');
            s.push('x');
            s.push(hex_digit_char(b / 16));
            s.push(hex_digit_char(b % 16));
            proof {
                assert(bytes@.take(i + 1).drop_last() =~= bytes@.take(i as int));
                assert(bytes@.take(i + 1).last() == b);
                assert(s@ =~= seq!['b', '"'] + bytes_escaped(bytes@.take(i + 1)));
            }
            i = i + 1;
        }
        s.push('"');
        proof {
            assert(bytes@.take(bytes@.len() as int) =~= bytes@);
            assert(s@ =~= byte_str_canon(bytes@));
        }
        let r = Lit::ByteStr { text: s, len: bytes.len() };
        proof {
            assert(lit_canon(r) =~= byte_str_canon(bytes@));
        }
        r
    }

    /// An equal copy.
    pub fn duplicate(&self) -> (r: Lit)
        ensures
            r == *self,
    {
        match self {
            Lit::Int { text } => Lit::Int { text: text.clone() },
            Lit::Str { value } => Lit::Str { value: value.clone() },
            Lit::ByteStr { text, len } => Lit::ByteStr { text: text.clone(), len: *len },
            Lit::Bool { value } => Lit::Bool { value: *value },
        }
    }
}

impl Token {
    /// An equal copy.
    pub fn duplicate(&self) -> (r: Token)
        ensures
            r == *self,
    {
        match self {
            Token::Ident { text } => Token::Ident { text: text.clone() },
            Token::Punct { ch } => Token::Punct { ch: *ch },
            Token::Literal { lit } => Token::Literal { lit: lit.duplicate() },
        }
    }
}

/// Copies the token range `lo..hi` out of a token vector.
pub fn copy_tokens(ts: &Vec<Token>, lo: usize, hi: usize) -> (r: Vec<Token>)
    requires
        lo <= hi <= ts@.len(),
    ensures
        r@ == ts@.subrange(lo as int, hi as int),
{
    let mut out: Vec<Token> = Vec::new();
    let mut i: usize = lo;
    while i < hi
        invariant
            lo <= i <= hi <= ts@.len(),
            out@ == ts@.subrange(lo as int, i as int),
        decreases hi - i,
    {
        out.push(ts[i].duplicate());
        proof {
            assert(out@ =~= ts@.subrange(lo as int, i + 1));
        }
        i = i + 1;
    }
    out
}

/// Renders a literal's canonical text.
pub fn lit_text(l: &Lit) -> (r: String)
    ensures
        r@ == lit_canon(*l),
{
    match l {
        Lit::Int { text } => text.clone(),
        Lit::Str { value } => {
            let mut s = String::from_str("\"");
            s.append(value.as_str());
            s.append("\"");
            proof {
                reveal_strlit("\"");
                assert(s@ =~= lit_canon(*l));
            }
            s
        },
        Lit::ByteStr { text, .. } => text.clone(),
        Lit::Bool { value } => {
            if *value {
                String::from_str("true")
            } else {
                String::from_str("false")
            }
        },
    }
}

/// Renders a token's canonical text.
pub fn token_text(t: &Token) -> (r: String)
    ensures
        r@ == token_canon(*t),
{
    match t {
        Token::Ident { text } => text.clone(),
        Token::Punct { ch } => {
            let mut s = String::new();
            s.push(*ch);
            proof {
                assert(s@ =~= seq![*ch]);
            }
            s
        },
        Token::Literal { lit } => lit_text(lit),
    }
}

/// Renders a token sequence's canonical text: the form under which constant
/// values are grouped and compared.
pub fn tokens_text(ts: &Vec<Token>) -> (r: String)
    ensures
        r@ == tokens_canon(ts@),
{
    let mut s = String::new();
    let mut i: usize = 0;
    while i < ts.len()
        invariant
            i <= ts.len(),
            s@ == tokens_canon(ts@.take(i as int)),
        decreases ts.len() - i,
    {
        if i > 0 {
            s.append(" ");
            proof {
                reveal_strlit(" ");
                assert(" "@ =~= seq![' ']);
            }
        }
        let t = token_text(&ts[i]);
        s.append(t.as_str());
        proof {
            lemma_tokens_canon_step(ts@, i as int);
            assert(s@ =~= tokens_canon(ts@.take(i + 1)));
        }
        i = i + 1;
    }
    proof {
        assert(ts@.take(ts@.len() as int) =~= ts@);
    }
    s
}

} // verus!
