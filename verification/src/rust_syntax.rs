//! What the `syn` parser says of small pieces of Rust syntax.

use vstd::prelude::*;

verus! {

/// Whether `syn` accepts `text` as a non-keyword identifier.
pub uninterp spec fn rust_ident_accepted(text: Seq<char>) -> bool;

/// Whether `syn` parses `text` as one whole Rust expression.
pub uninterp spec fn rust_expr_parses(text: Seq<char>) -> bool;

/// Whether `syn` parses `text` as one whole Rust type.
pub uninterp spec fn rust_type_parses(text: Seq<char>) -> bool;

/// The value of the string literal whose source text is `text`, or `None`
/// when `syn` does not read `text` as one string literal.
pub uninterp spec fn string_literal_value(text: Seq<char>) -> Option<Seq<char>>;

/// Trusted: `syn::parse_str::<syn::Ident>(text).is_ok()`. The result is
/// whatever `syn` decides; it is named, not stated.
#[verifier::external_body]
pub(crate) fn ident_accepted(text: &str) -> (r: bool)
    ensures
        r == rust_ident_accepted(text@),
{
    syn::parse_str::<syn::Ident>(text).is_ok()
}

/// Trusted: `syn::parse_str::<syn::Expr>(text).is_ok()`. The result is
/// whatever `syn` decides; it is named, not stated.
#[verifier::external_body]
pub(crate) fn expr_parses(text: &str) -> (r: bool)
    ensures
        r == rust_expr_parses(text@),
{
    syn::parse_str::<syn::Expr>(text).is_ok()
}

/// Trusted: `syn::parse_str::<syn::Type>(text).is_ok()`. The result is
/// whatever `syn` decides; it is named, not stated.
#[verifier::external_body]
pub(crate) fn type_parses(text: &str) -> (r: bool)
    ensures
        r == rust_type_parses(text@),
{
    syn::parse_str::<syn::Type>(text).is_ok()
}

/// Trusted: parses `text` with `syn::parse_str::<syn::LitStr>` and returns
/// `LitStr::value` on success. The decoded value is named, not stated.
#[verifier::external_body]
pub(crate) fn literal_string_value(text: &str) -> (r: Option<String>)
    ensures
        match r {
            Some(s) => string_literal_value(text@) == Some(s@),
            None => string_literal_value(text@) is None,
        },
{
    syn::parse_str::<syn::LitStr>(text).ok().map(|l| l.value())
}

} // verus!
