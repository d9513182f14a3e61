//! How a name and an integer literal are read. Both are left to `syn`,
//! and what is said of it here is taken on trust.

use vstd::prelude::*;

verus! {

/// Whether `syn` reads the text as an identifier: as one name that is no
/// keyword of the language.
pub uninterp spec fn ident_accepted(name: Seq<char>) -> bool;

/// What `syn` reads the text as where it is an integer literal: the number
/// that its digits give where a `u64` holds it, else the complaint about
/// the digits. Nothing where the text is no integer literal.
pub uninterp spec fn int_literal(text: Seq<char>) -> Option<Result<u64, Seq<char>>>;

/// Asks `syn::parse_str::<syn::Ident>` whether the text is an identifier.
///
/// `syn` reads a text as an identifier where it is a single name and none
/// of the keywords that the language keeps for itself, nor `_`.
#[verifier::external_body]
pub(crate) fn accepts_ident(name: &str) -> (accepted: bool)
    ensures
        accepted == ident_accepted(name@),
{
    syn::parse_str::<syn::Ident>(name).is_ok()
}

/// Reads the text with `syn::parse_str::<syn::LitInt>` and takes the value
/// of the literal with `syn::LitInt::base10_parse::<u64>`.
///
/// The first gives an error where the text is no single integer literal,
/// with or without a sign before it. The second reads the digits of the
/// literal in base ten, without its suffix, and gives an error where they
/// do not make a `u64`; the text of that error is handed on.
#[verifier::external_body]
pub(crate) fn read_int_literal(text: &str) -> (read: Option<Result<u64, String>>)
    ensures
        match read {
            Some(Ok(value)) => int_literal(text@) == Some(Ok::<u64, Seq<char>>(value)),
            Some(Err(message)) => int_literal(text@) == Some(Err::<u64, Seq<char>>(message@)),
            None => int_literal(text@) is None,
        },
{
    match syn::parse_str::<syn::LitInt>(text) {
        Ok(literal) => Some(literal.base10_parse::<u64>().map_err(|error| error.to_string())),
        Err(_) => None,
    }
}

} // verus!
