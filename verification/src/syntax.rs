//! What the host language's grammar says of a piece of source text.
//!
//! The notation embeds expressions, types, identifiers and integer literals
//! of the host language. Whether a text is one of them is decided by `syn`;
//! this module names those decisions and asks for them.

use vstd::prelude::*;

verus! {

/// Whether `syn` parses the whole of `text` as one expression.
pub uninterp spec fn expression_text(text: Seq<char>) -> bool;

/// Whether `syn` parses the whole of `text` as one type.
pub uninterp spec fn type_text(text: Seq<char>) -> bool;

/// Whether `syn` parses the whole of `text` as one identifier that is no
/// keyword.
pub uninterp spec fn identifier_text(text: Seq<char>) -> bool;

/// Whether `syn` parses the whole of `text` as one integer literal, with or
/// without a sign and a suffix.
pub uninterp spec fn integer_text(text: Seq<char>) -> bool;

/// The position that `syn` reads from `text` as a tuple index, if it is one:
/// an integer literal without a suffix whose value fits in 32 bits.
pub uninterp spec fn tuple_index_text(text: Seq<char>) -> Option<u32>;

/// `syn::parse_str::<syn::Expr>`: whether the text is accepted.
#[verifier::external_body]
pub(crate) fn is_expression(text: &str) -> (ok: bool)
    ensures
        ok == expression_text(text@),
{
    syn::parse_str::<syn::Expr>(text).is_ok()
}

/// `syn::parse_str::<syn::Type>`: whether the text is accepted.
#[verifier::external_body]
pub(crate) fn is_type(text: &str) -> (ok: bool)
    ensures
        ok == type_text(text@),
{
    syn::parse_str::<syn::Type>(text).is_ok()
}

/// `syn::parse_str::<syn::Ident>`: whether the text is accepted.
#[verifier::external_body]
pub(crate) fn is_identifier(text: &str) -> (ok: bool)
    ensures
        ok == identifier_text(text@),
{
    syn::parse_str::<syn::Ident>(text).is_ok()
}

/// `syn::parse_str::<syn::LitInt>`: whether the text is accepted.
#[verifier::external_body]
pub(crate) fn is_integer(text: &str) -> (ok: bool)
    ensures
        ok == integer_text(text@),
{
    syn::parse_str::<syn::LitInt>(text).is_ok()
}

/// `syn::parse_str::<syn::Index>`: the index read, where the text is accepted.
#[verifier::external_body]
pub(crate) fn tuple_index(text: &str) -> (r: Option<u32>)
    ensures
        r == tuple_index_text(text@),
{
    match syn::parse_str::<syn::Index>(text) {
        Ok(index) => Some(index.index),
        Err(_) => None,
    }
}

} // verus!
