//! Identifiers spelled inside string literals.

use vstd::prelude::*;
use vstd::string::*;
use crate::syntax::view_of_text;

verus! {

/// The identifier that `text` spells when it is read as Rust source: `Some`
/// where the text holds one identifier that is neither a keyword nor `_`,
/// and nothing else but white space and comments; `None` otherwise.
pub uninterp spec fn ident_in(text: Seq<char>) -> Option<Seq<char>>;

/// Reads `text`, the content of a string literal, as a single identifier.
///
/// This is `syn::LitStr::parse::<syn::Ident>` on a literal of that content.
/// The parse lexes the content into tokens and accepts it where the tokens
/// are exactly one identifier that is neither a keyword nor `_`; what comes
/// back is the spelling of that identifier. The contract claims no more
/// than that the answer depends on the content alone.
#[verifier::external_body]
pub(crate) fn parse_ident(text: &str) -> (r: Option<String>)
    ensures
        view_of_text(r) == ident_in(text@),
{
    let lit = syn::LitStr::new(text, proc_macro2::Span::call_site());
    lit.parse::<syn::Ident>().ok().map(|ident| ident.to_string())
}

} // verus!
