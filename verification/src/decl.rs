//! The input model: the declaration of an annotated union, as the host
//! hands it to the generator.

use vstd::prelude::*;
use crate::token::Token;

verus! {

/// One annotation attached to a union or to a variant: a path (such as
/// `value` or `armtype`) followed by the raw tokens that stood after the
/// path inside the attribute's brackets.
#[derive(Debug, Clone)]
pub struct AttrDecl {
    pub path: String,
    pub tokens: Vec<Token>,
}

/// The declaration of one variant: its name, its arity (the number of
/// payload fields it carries), and its annotations.
#[derive(Debug, Clone)]
pub struct VariantDecl {
    pub name: String,
    pub arity: usize,
    pub attrs: Vec<AttrDecl>,
}

/// The body of the declaration that generation was asked to work on.
#[derive(Debug, Clone)]
pub enum DeclData {
    /// A closed union of variants, in declaration order.
    Variants(Vec<VariantDecl>),
    /// Anything else; generation fails on it.
    Other,
}

/// The declaration of the annotated union itself.
#[derive(Debug, Clone)]
pub struct UnionDecl {
    pub name: String,
    pub attrs: Vec<AttrDecl>,
    pub data: DeclData,
}

} // verus!
