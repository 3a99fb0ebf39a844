//! Compile-time decorator retrofitting: parse a decorator annotation,
//! extract the annotated function's signature, and synthesize a
//! replacement function that routes every call through the decorator.
//!
//! All logic works over a minimal lexical token model (`token::Token`),
//! independent of any host-language syntax-tree library.

pub mod attr;
pub mod codegen;
pub mod func;
pub mod token;

use vstd::prelude::*;

use crate::attr::{spec_parse_attr, DecoratorAttr, SpecAttr};
use crate::codegen::{gen_spec, generate};
use crate::func::{spec_extract, Function, SpecFunc};
use crate::token::{view_tokens, Token};

verus! {

/// The boundary operation, invoked once per annotated function: it
/// takes the annotation's token sequence and the annotated item's
/// token sequence, and returns the replacement definition's token
/// sequence, or the diagnostic that aborts this one transformation.
pub fn deco(attr_tokens: &Vec<Token>, item_tokens: &Vec<Token>) -> (r: Result<
    Vec<Token>,
    DecoError,
>)
    ensures
        match r {
            Ok(out) => match (
                spec_parse_attr(view_tokens(attr_tokens@)),
                spec_extract(view_tokens(item_tokens@)),
            ) {
                (Ok(a), Ok(f)) => view_tokens(out@) == gen_spec(a, f),
                _ => false,
            },
            Err(e) => spec_parse_attr(view_tokens(attr_tokens@)) == Err::<SpecAttr, DecoError>(e)
                || (spec_parse_attr(view_tokens(attr_tokens@)) is Ok && spec_extract(
                view_tokens(item_tokens@),
            ) == Err::<SpecFunc, DecoError>(e)),
        },
{
    let a = match DecoratorAttr::parse(attr_tokens) {
        Ok(a) => a,
        Err(e) => {
            return Err(e);
        },
    };
    let f = match Function::parse(item_tokens) {
        Ok(f) => f,
        Err(e) => {
            return Err(e);
        },
    };
    Ok(generate(&a, &f))
}

/// The reasons a transformation can fail; each maps to one
/// compile-time diagnostic.
#[derive(Clone, Copy, Debug, PartialEq, Eq, Structural)]
pub enum DecoError {
    /// The annotation held no decorator name at all.
    NameNotFound,
    /// The annotation's tokens do not follow `name` or `name(args)`.
    InvalidTokenSequence,
    /// The annotated item is not a free function definition.
    NotAFunction,
    /// A parameter is not a simple named binding, so it cannot be
    /// forwarded positionally by name.
    UnsupportedParamPattern,
}

impl DecoError {
    /// The human-readable diagnostic text for this error.
    pub fn message(&self) -> (m: &'static str)
        ensures
            self is NameNotFound ==> m@ == "decorator name not found"@,
            self is InvalidTokenSequence ==> m@ == "invalid token sequence"@,
            self is NotAFunction ==> m@ == "input is not a function"@,
            self is UnsupportedParamPattern ==> m@ == "unsupported parameter pattern"@,
    {
        match self {
            DecoError::NameNotFound => "decorator name not found",
            DecoError::InvalidTokenSequence => "invalid token sequence",
            DecoError::NotAFunction => "input is not a function",
            DecoError::UnsupportedParamPattern => "unsupported parameter pattern",
        }
    }
}

} // verus!
