//! The two questions about Rust surface syntax that the generator delegates
//! to the `syn` crate: whether a piece of text is a legal identifier, and
//! what a function item's name and declared return type are.

use vstd::prelude::*;

verus! {

/// Whether `s` is a legal Rust identifier (keywords are not).
pub uninterp spec fn is_valid_ident(s: Seq<char>) -> bool;

/// Relies on `syn::parse_str::<syn::Ident>`: it accepts exactly the strings
/// that form one legal Rust identifier (keywords refused), and the answer
/// depends on the characters of `s` alone.
#[verifier::external_body]
pub fn ident_ok(s: &str) -> (r: bool)
    ensures
        r == is_valid_ident(s@),
{
    syn::parse_str::<syn::Ident>(s).is_ok()
}

/// For text that parses as one function item: the function's name and, when
/// one is declared, its return type's token text.  `None` for any other text.
pub uninterp spec fn fn_sig_of(s: Seq<char>) -> Option<(Seq<char>, Option<Seq<char>>)>;

/// Relies on `syn::parse_str::<syn::ItemFn>`: it accepts exactly the texts
/// that form one function item; the name and the return type tokens are read
/// off the parsed signature, and the answer depends on the characters of `s`
/// alone.
#[verifier::external_body]
pub fn parse_fn_sig(s: &str) -> (r: Option<(String, Option<String>)>)
    ensures
        r.deep_view() == fn_sig_of(s@),
{
    match syn::parse_str::<syn::ItemFn>(s) {
        Ok(f) => {
            let name = f.sig.ident.to_string();
            let ret = match &f.sig.output {
                syn::ReturnType::Default => None,
                syn::ReturnType::Type(_, t) => {
                    Some(quote::ToTokens::to_token_stream(&**t).to_string())
                },
            };
            Some((name, ret))
        },
        Err(_) => None,
    }
}

} // verus!
