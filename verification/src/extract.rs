//! The literal/type extractor: reads the raw tokens of `value = ...` and
//! `armtype(...)` annotations into typed structures.
//!
//! A value annotation accepts a single literal (`value = <lit>`), a
//! parenthesized list of literals and paths whose tokens are concatenated
//! (`value(<item>, <item>)`), or the bare path form (`value`). Any other
//! shape is a [`DeriveError::NonLiteralValue`].
//!
//! A type annotation accepts a type expression optionally prefixed by one
//! indirection marker `&`; the marker is stripped and reported separately.
//! An absent or unparsable type annotation yields "not present", never an
//! error: callers decide whether that is fatal.

use vstd::prelude::*;
use vstd::string::StringExecFns;
use crate::decl::AttrDecl;
use crate::token::{Token, copy_tokens};

verus! {

/// Errors that abort a generation run: the input declaration itself is
/// invalid and generation cannot proceed even partially.
#[derive(Debug, Clone)]
pub enum DeriveError {
    /// The derive target is not a union of variants; carries the derive
    /// mode's name.
    DeriveForNonEnum(String),
    /// No usable union-level type annotation; carries a description of the
    /// place the annotation was expected and the derive mode's name.
    MissingArmType(String, String),
    /// A variant lacks its constant value annotation; carries the derive
    /// mode's name.
    MissingValue(String),
    /// A value annotation whose shape is not literal-like.
    NonLiteralValue,
}

/// The index of the first attribute at or after `i` whose path is `name`,
/// or `-1` when there is none.
pub open spec fn first_attr_from(attrs: Seq<AttrDecl>, name: Seq<char>, i: int) -> int
    decreases attrs.len() - i,
{
    if i < 0 || i >= attrs.len() {
        -1
    } else if attrs[i].path@ == name {
        i
    } else {
        first_attr_from(attrs, name, i + 1)
    }
}

/// The index of the first attribute whose path is `name`, or `-1`.
pub open spec fn first_attr(attrs: Seq<AttrDecl>, name: Seq<char>) -> int {
    first_attr_from(attrs, name, 0)
}

/// Whether a token is a comma.
pub open spec fn is_comma(t: Token) -> bool {
    t == (Token::Punct { ch: ',' })
}

/// Parser state for the item list inside a parenthesized value annotation.
///
/// The grammar is a comma-separated list of items, a trailing comma
/// allowed, where an item is a single literal or a path
/// (`ident` or `ident :: ident :: ...`).
#[derive(PartialEq, Eq, Structural, Clone, Copy, Debug)]
pub enum ListState {
    /// At the start of the list or right after a comma.
    ExpectItem,
    /// Right after a literal item.
    AfterItem,
    /// Inside a path, right after a path segment.
    AfterSeg,
    /// Inside a path, after the first colon of a `::`.
    Colon1,
    /// Inside a path, after the second colon of a `::`.
    Colon2,
    /// The list shape is broken; absorbing.
    Failed,
}

/// One step of the item-list parser.
pub open spec fn list_step(st: ListState, t: Token) -> ListState {
    match st {
        ListState::ExpectItem => match t {
            Token::Literal { .. } => ListState::AfterItem,
            Token::Ident { .. } => ListState::AfterSeg,
            Token::Punct { .. } => ListState::Failed,
        },
        ListState::AfterItem => if is_comma(t) {
            ListState::ExpectItem
        } else {
            ListState::Failed
        },
        ListState::AfterSeg => if t == (Token::Punct { ch: ':' }) {
            ListState::Colon1
        } else if is_comma(t) {
            ListState::ExpectItem
        } else {
            ListState::Failed
        },
        ListState::Colon1 => if t == (Token::Punct { ch: ':' }) {
            ListState::Colon2
        } else {
            ListState::Failed
        },
        ListState::Colon2 => match t {
            Token::Ident { .. } => ListState::AfterSeg,
            _ => ListState::Failed,
        },
        ListState::Failed => ListState::Failed,
    }
}

/// The parser state after reading the first `n` tokens of `ts`.
pub open spec fn list_run(ts: Seq<Token>, n: int) -> ListState
    decreases n,
{
    if n <= 0 {
        ListState::ExpectItem
    } else {
        list_step(list_run(ts, n - 1), ts[n - 1])
    }
}

/// Whether a token sequence is a well-formed item list.
pub open spec fn list_accepts(ts: Seq<Token>) -> bool {
    match list_run(ts, ts.len() as int) {
        ListState::ExpectItem => true,
        ListState::AfterItem => true,
        ListState::AfterSeg => true,
        _ => false,
    }
}

/// The tokens of an item list with the separating commas removed: the
/// items' tokens, concatenated.
pub open spec fn strip_commas(ts: Seq<Token>) -> Seq<Token>
    decreases ts.len(),
{
    if ts.len() == 0 {
        Seq::empty()
    } else if is_comma(ts.last()) {
        strip_commas(ts.drop_last())
    } else {
        strip_commas(ts.drop_last()).push(ts.last())
    }
}

/// What a value annotation's raw tokens denote: the extracted value tokens,
/// or nothing when the shape is not literal-like.
pub open spec fn val_tokens_of(a: AttrDecl) -> Option<Seq<Token>> {
    let ts = a.tokens@;
    if ts.len() == 0 {
        Some(seq![Token::Ident { text: a.path }])
    } else if ts.len() == 2 && ts[0] == (Token::Punct { ch: '=' }) && ts[1] is Literal {
        Some(seq![ts[1]])
    } else if ts.len() >= 2 && ts[0] == (Token::Punct { ch: '(' }) && ts.last() == (Token::Punct {
        ch: ')',
    }) {
        let inner = ts.subrange(1, ts.len() - 1);
        if list_accepts(inner) {
            Some(strip_commas(inner))
        } else {
            None
        }
    } else {
        None
    }
}

/// The result of looking a value annotation up in an attribute list.
pub enum ValLookup {
    /// No `value` attribute at all.
    Missing,
    /// A `value` attribute whose shape is not literal-like.
    Invalid,
    /// The extracted value tokens.
    Found(Seq<Token>),
}

/// What [`get_val`] returns for the given attribute list.
pub open spec fn spec_get_val(attrs: Seq<AttrDecl>) -> ValLookup {
    let ix = first_attr(attrs, "value"@);
    if ix < 0 {
        ValLookup::Missing
    } else {
        match val_tokens_of(attrs[ix]) {
            Some(ts) => ValLookup::Found(ts),
            None => ValLookup::Invalid,
        }
    }
}

fn list_step_exec(st: ListState, t: &Token) -> (r: ListState)
    ensures
        r == list_step(st, *t),
{
    match st {
        ListState::ExpectItem => match t {
            Token::Literal { .. } => ListState::AfterItem,
            Token::Ident { .. } => ListState::AfterSeg,
            Token::Punct { .. } => ListState::Failed,
        },
        ListState::AfterItem => match t {
            Token::Punct { ch } => if *ch == ',' {
                ListState::ExpectItem
            } else {
                ListState::Failed
            },
            _ => ListState::Failed,
        },
        ListState::AfterSeg => match t {
            Token::Punct { ch } => if *ch == ':' {
                ListState::Colon1
            } else if *ch == ',' {
                ListState::ExpectItem
            } else {
                ListState::Failed
            },
            _ => ListState::Failed,
        },
        ListState::Colon1 => match t {
            Token::Punct { ch } => if *ch == ':' {
                ListState::Colon2
            } else {
                ListState::Failed
            },
            _ => ListState::Failed,
        },
        ListState::Colon2 => match t {
            Token::Ident { .. } => ListState::AfterSeg,
            _ => ListState::Failed,
        },
        ListState::Failed => ListState::Failed,
    }
}

/// Parses the token range `lo..hi` of `ts` as an item list, returning the
/// items' tokens concatenated, or nothing when the list shape is broken.
fn parse_meta_list(ts: &Vec<Token>, lo: usize, hi: usize) -> (r: Option<Vec<Token>>)
    requires
        lo <= hi <= ts@.len(),
    ensures
        ({
            let inner = ts@.subrange(lo as int, hi as int);
            if list_accepts(inner) {
                r matches Some(v) && v@ == strip_commas(inner)
            } else {
                r is None
            }
        }),
{
    let ghost inner = ts@.subrange(lo as int, hi as int);
    let mut st = ListState::ExpectItem;
    let mut out: Vec<Token> = Vec::new();
    let mut i: usize = lo;
    proof {
        assert(inner.take(0) =~= Seq::<Token>::empty());
        assert(out@ =~= strip_commas(inner.take(0)));
    }
    while i < hi
        invariant
            lo <= i <= hi <= ts@.len(),
            inner == ts@.subrange(lo as int, hi as int),
            st == list_run(inner, i - lo),
            out@ == strip_commas(inner.take(i - lo)),
        decreases hi - i,
    {
        let t = &ts[i];
        let comma = match t {
            Token::Punct { ch } => *ch == ',',
            _ => false,
        };
        if !comma {
            out.push(t.duplicate());
        }
        st = list_step_exec(st, t);
        proof {
            assert(inner[i - lo] == ts@[i as int]);
            assert(inner.take(i - lo + 1).drop_last() =~= inner.take(i - lo));
            assert(inner.take(i - lo + 1).last() == inner[i - lo]);
            assert(comma == is_comma(inner[i - lo]));
            assert(out@ =~= strip_commas(inner.take(i - lo + 1)));
        }
        i = i + 1;
    }
    proof {
        assert(inner.take(hi - lo) =~= inner);
    }
    let ok = match st {
        ListState::ExpectItem => true,
        ListState::AfterItem => true,
        ListState::AfterSeg => true,
        _ => false,
    };
    if ok {
        Some(out)
    } else {
        None
    }
}

/// Extracts the value annotation from an attribute list: the first `value`
/// attribute decides. `name` is the derive mode's name, used in the error
/// when the annotation is missing.
pub fn get_val(name: &str, attrs: &Vec<AttrDecl>) -> (r: Result<Vec<Token>, DeriveError>)
    ensures
        match spec_get_val(attrs@) {
            ValLookup::Found(ts) => r matches Ok(v) && v@ == ts,
            ValLookup::Missing => r matches Err(DeriveError::MissingValue(n)) && n@ == name@,
            ValLookup::Invalid => r matches Err(DeriveError::NonLiteralValue),
        },
{
    let needle = String::from_str("value");
    let mut i: usize = 0;
    while i < attrs.len()
        invariant
            i <= attrs.len(),
            needle@ == "value"@,
            first_attr(attrs@, "value"@) == first_attr_from(attrs@, "value"@, i as int),
        decreases attrs.len() - i,
    {
        let a = &attrs[i];
        if a.path == needle {
            proof {
                assert(first_attr(attrs@, "value"@) == i);
            }
            let n = a.tokens.len();
            if n == 0 {
                let mut v: Vec<Token> = Vec::new();
                v.push(Token::Ident { text: a.path.clone() });
                proof {
                    assert(v@ =~= seq![Token::Ident { text: a.path }]);
                }
                return Ok(v);
            }
            let eq_lit = n == 2 && {
                let first_eq = match &a.tokens[0] {
                    Token::Punct { ch } => *ch == '=',
                    _ => false,
                };
                let second_lit = match &a.tokens[1] {
                    Token::Literal { .. } => true,
                    _ => false,
                };
                first_eq && second_lit
            };
            if eq_lit {
                let mut v: Vec<Token> = Vec::new();
                v.push(a.tokens[1].duplicate());
                proof {
                    assert(a.tokens@[0] == (Token::Punct { ch: '=' }));
                    assert(v@ =~= seq![a.tokens@[1]]);
                }
                return Ok(v);
            }
            let parens = n >= 2 && {
                let first_open = match &a.tokens[0] {
                    Token::Punct { ch } => *ch == '(',
                    _ => false,
                };
                let last_close = match &a.tokens[n - 1] {
                    Token::Punct { ch } => *ch == ')',
                    _ => false,
                };
                first_open && last_close
            };
            if parens {
                proof {
                    assert(a.tokens@[0] == (Token::Punct { ch: '(' }));
                    assert(a.tokens@.last() == (Token::Punct { ch: ')' }));
                }
                return match parse_meta_list(&a.tokens, 1, n - 1) {
                    Some(v) => Ok(v),
                    None => Err(DeriveError::NonLiteralValue),
                };
            }
            proof {
                assert(val_tokens_of(attrs@[i as int]) is None);
            }
            return Err(DeriveError::NonLiteralValue);
        }
        i = i + 1;
    }
    Err(DeriveError::MissingValue(String::from_str(name)))
}

/// Whether a token may appear anywhere in a type expression.
pub open spec fn type_token_ok(t: Token) -> bool {
    match t {
        Token::Ident { .. } => true,
        Token::Punct { ch } => ch == '&' || ch == ':' || ch == '<' || ch == '>' || ch == '['
            || ch == ']' || ch == '(' || ch == ')' || ch == ';' || ch == ',' || ch == '\'',
        Token::Literal { lit } => lit is Int,
    }
}

/// Whether a token may open a type expression.
pub open spec fn type_first_ok(t: Token) -> bool {
    match t {
        Token::Ident { .. } => true,
        Token::Punct { ch } => ch == '&' || ch == '[' || ch == '(',
        Token::Literal { .. } => false,
    }
}

/// Whether a token may close a type expression.
pub open spec fn type_last_ok(t: Token) -> bool {
    match t {
        Token::Ident { .. } => true,
        Token::Punct { ch } => ch == ']' || ch == ')' || ch == '>',
        Token::Literal { .. } => false,
    }
}

/// Whether a token sequence is a well-formed type expression: nonempty,
/// drawn from the type alphabet, opened and closed by tokens that may stand
/// there.
pub open spec fn type_tokens_ok(ts: Seq<Token>) -> bool {
    &&& ts.len() > 0
    &&& type_first_ok(ts[0])
    &&& type_last_ok(ts.last())
    &&& forall|i: int| 0 <= i < ts.len() ==> type_token_ok(#[trigger] ts[i])
}

/// The tokens between an attribute's outer parentheses, when it has them.
pub open spec fn paren_inner(ts: Seq<Token>) -> Option<Seq<Token>> {
    if ts.len() >= 2 && ts[0] == (Token::Punct { ch: '(' }) && ts.last() == (Token::Punct {
        ch: ')',
    }) {
        Some(ts.subrange(1, ts.len() - 1))
    } else {
        None
    }
}

/// What [`get_deref_type`] returns: the type tokens with one leading `&`
/// stripped, and whether one was stripped. The first `armtype` attribute
/// decides.
pub open spec fn spec_get_deref_type(attrs: Seq<AttrDecl>) -> Option<(Seq<Token>, bool)> {
    let ix = first_attr(attrs, "armtype"@);
    if ix < 0 {
        None
    } else {
        match paren_inner(attrs[ix].tokens@) {
            None => None,
            Some(inner) => {
                let deref = inner.len() > 0 && inner[0] == (Token::Punct { ch: '&' });
                let stripped = if deref {
                    inner.drop_first()
                } else {
                    inner
                };
                if type_tokens_ok(stripped) {
                    Some((stripped, deref))
                } else {
                    None
                }
            },
        }
    }
}

/// What [`get_type`] returns: the raw type tokens, indirection marker
/// included. The first `armtype` attribute decides.
pub open spec fn spec_get_type(attrs: Seq<AttrDecl>) -> Option<Seq<Token>> {
    let ix = first_attr(attrs, "armtype"@);
    if ix < 0 {
        None
    } else {
        match paren_inner(attrs[ix].tokens@) {
            None => None,
            Some(inner) => {
                if type_tokens_ok(inner) {
                    Some(inner)
                } else {
                    None
                }
            },
        }
    }
}

fn type_token_ok_exec(t: &Token) -> (r: bool)
    ensures
        r == type_token_ok(*t),
{
    match t {
        Token::Ident { .. } => true,
        Token::Punct { ch } => *ch == '&' || *ch == ':' || *ch == '<' || *ch == '>' || *ch == '['
            || *ch == ']' || *ch == '(' || *ch == ')' || *ch == ';' || *ch == ',' || *ch == '\'',
        Token::Literal { lit } => match lit {
            crate::token::Lit::Int { .. } => true,
            _ => false,
        },
    }
}

/// Checks that the token range `lo..hi` of `ts` is a well-formed type
/// expression.
fn check_type_tokens(ts: &Vec<Token>, lo: usize, hi: usize) -> (r: bool)
    requires
        lo <= hi <= ts@.len(),
    ensures
        r == type_tokens_ok(ts@.subrange(lo as int, hi as int)),
{
    let ghost inner = ts@.subrange(lo as int, hi as int);
    if lo == hi {
        return false;
    }
    let first_ok = match &ts[lo] {
        Token::Ident { .. } => true,
        Token::Punct { ch } => *ch == '&' || *ch == '[' || *ch == '(',
        Token::Literal { .. } => false,
    };
    let last_ok = match &ts[hi - 1] {
        Token::Ident { .. } => true,
        Token::Punct { ch } => *ch == ']' || *ch == ')' || *ch == '>',
        Token::Literal { .. } => false,
    };
    if !first_ok || !last_ok {
        proof {
            assert(inner[0] == ts@[lo as int]);
            assert(inner.last() == ts@[hi - 1]);
        }
        return false;
    }
    let mut i: usize = lo;
    while i < hi
        invariant
            lo <= i <= hi <= ts@.len(),
            inner == ts@.subrange(lo as int, hi as int),
            forall|j: int| 0 <= j < i - lo ==> type_token_ok(#[trigger] inner[j]),
        decreases hi - i,
    {
        if !type_token_ok_exec(&ts[i]) {
            proof {
                assert(inner[i - lo] == ts@[i as int]);
            }
            return false;
        }
        proof {
            assert(inner[i - lo] == ts@[i as int]);
        }
        i = i + 1;
    }
    proof {
        assert(inner[0] == ts@[lo as int]);
        assert(inner.last() == ts@[hi - 1]);
    }
    true
}

/// Extracts the type annotation with its indirection marker stripped,
/// reporting separately whether one was stripped.
pub fn get_deref_type(attrs: &Vec<AttrDecl>) -> (r: Option<(Vec<Token>, bool)>)
    ensures
        match spec_get_deref_type(attrs@) {
            Some((ts, d)) => r matches Some(p) && p.0@ == ts && p.1 == d,
            None => r is None,
        },
{
    let needle = String::from_str("armtype");
    let mut i: usize = 0;
    while i < attrs.len()
        invariant
            i <= attrs.len(),
            needle@ == "armtype"@,
            first_attr(attrs@, "armtype"@) == first_attr_from(attrs@, "armtype"@, i as int),
        decreases attrs.len() - i,
    {
        let a = &attrs[i];
        if a.path == needle {
            proof {
                assert(first_attr(attrs@, "armtype"@) == i);
            }
            let n = a.tokens.len();
            let parens = n >= 2 && {
                let first_open = match &a.tokens[0] {
                    Token::Punct { ch } => *ch == '(',
                    _ => false,
                };
                let last_close = match &a.tokens[n - 1] {
                    Token::Punct { ch } => *ch == ')',
                    _ => false,
                };
                first_open && last_close
            };
            if !parens {
                return None;
            }
            proof {
                assert(a.tokens@[0] == (Token::Punct { ch: '(' }));
                assert(a.tokens@.last() == (Token::Punct { ch: ')' }));
            }
            let ghost inner = a.tokens@.subrange(1, n - 1);
            let deref = n >= 3 && match &a.tokens[1] {
                Token::Punct { ch } => *ch == '&',
                _ => false,
            };
            proof {
                if n >= 3 {
                    assert(inner[0] == a.tokens@[1]);
                }
                assert(deref == (inner.len() > 0 && inner[0] == (Token::Punct { ch: '&' })));
            }
            let lo: usize = if deref {
                2
            } else {
                1
            };
            proof {
                if deref {
                    assert(inner.drop_first() =~= a.tokens@.subrange(2, n - 1));
                }
            }
            if check_type_tokens(&a.tokens, lo, n - 1) {
                return Some((copy_tokens(&a.tokens, lo, n - 1), deref));
            } else {
                return None;
            }
        }
        i = i + 1;
    }
    None
}

/// Extracts the type annotation as its raw tokens, indirection marker
/// included.
pub fn get_type(attrs: &Vec<AttrDecl>) -> (r: Option<Vec<Token>>)
    ensures
        match spec_get_type(attrs@) {
            Some(ts) => r matches Some(v) && v@ == ts,
            None => r is None,
        },
{
    let needle = String::from_str("armtype");
    let mut i: usize = 0;
    while i < attrs.len()
        invariant
            i <= attrs.len(),
            needle@ == "armtype"@,
            first_attr(attrs@, "armtype"@) == first_attr_from(attrs@, "armtype"@, i as int),
        decreases attrs.len() - i,
    {
        let a = &attrs[i];
        if a.path == needle {
            proof {
                assert(first_attr(attrs@, "armtype"@) == i);
            }
            let n = a.tokens.len();
            let parens = n >= 2 && {
                let first_open = match &a.tokens[0] {
                    Token::Punct { ch } => *ch == '(',
                    _ => false,
                };
                let last_close = match &a.tokens[n - 1] {
                    Token::Punct { ch } => *ch == ')',
                    _ => false,
                };
                first_open && last_close
            };
            if !parens {
                return None;
            }
            proof {
                assert(a.tokens@[0] == (Token::Punct { ch: '(' }));
                assert(a.tokens@.last() == (Token::Punct { ch: ')' }));
            }
            if check_type_tokens(&a.tokens, 1, n - 1) {
                return Some(copy_tokens(&a.tokens, 1, n - 1));
            } else {
                return None;
            }
        }
        i = i + 1;
    }
    None
}

} // verus!
