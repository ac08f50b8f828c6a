//! Trusted boundary to the `syn`, `quote` and `proc-macro2` crates: the
//! declaration of the parse-error type, names for what the parsers yield, and
//! thin wrappers around the parsing and printing calls the transformation
//! makes.

use quote::ToTokens;
use vstd::prelude::*;

verus! {

/// `syn::Error`: a parse error, carrying a message and the offending span.
#[verifier::external_type_specification]
#[verifier::external_body]
pub struct ExSynError(syn::Error);

/// Whether `syn`'s expression grammar accepts `s` as exactly one expression.
pub uninterp spec fn expr_accepts(s: Seq<char>) -> bool;

/// The printed form of the expression that `s` parses to: `s`'s tokens,
/// comments stripped, with `proc-macro2`'s spacing. Meaningful only where
/// `expr_accepts(s)` holds.
pub uninterp spec fn expr_printed(s: Seq<char>) -> Seq<char>;

/// Whether `syn`'s item grammar accepts `s` as exactly one function
/// definition, signature and brace-delimited body.
pub uninterp spec fn item_fn_accepts(s: Seq<char>) -> bool;

/// The printed header of the function that `s` parses to: its outer
/// attributes, visibility and signature, everything up to the body's opening
/// brace. Meaningful only where `item_fn_accepts(s)` holds.
pub uninterp spec fn fn_header_text(s: Seq<char>) -> Seq<char>;

/// The printed inner attributes of the body of the function that `s` parses
/// to, empty for most functions. Meaningful only where `item_fn_accepts(s)`
/// holds.
pub uninterp spec fn fn_inner_attrs_text(s: Seq<char>) -> Seq<char>;

/// The printed statements of the body of the function that `s` parses to, in
/// their original order. Meaningful only where `item_fn_accepts(s)` holds.
pub uninterp spec fn fn_stmt_texts(s: Seq<char>) -> Seq<Seq<char>>;

/// Relies on `syn::parse_str::<syn::Expr>` and on `quote::ToTokens`: the
/// parse succeeds exactly when the whole of `src` is one expression, both its
/// outcome and the reprint of what it yields are functions of the text alone,
/// and empty input fails with an unexpected end of input. Two caveats: `syn`
/// parses recursively without a depth guard, so absurdly nested input can
/// exhaust the stack; and outside a compiler context, `proc-macro2`'s
/// standalone lexer decides which text lexes.
#[verifier::external_body]
pub(crate) fn parse_expr(src: &str) -> (r: Result<String, syn::Error>)
    ensures
        r is Ok <==> expr_accepts(src@),
        src@.len() == 0 ==> r is Err,
        r is Ok ==> r->Ok_0@ == expr_printed(src@),
{
    match syn::parse_str::<syn::Expr>(src) {
        Ok(e) => Ok(e.to_token_stream().to_string()),
        Err(e) => Err(e),
    }
}

/// Relies on `syn::parse_str::<syn::ItemFn>` and on `quote::ToTokens`: the
/// parse succeeds exactly when the whole of `src` is one function definition,
/// what it yields is a function of the text alone, and empty input fails. The
/// function is handed back in printed parts: the header (outer attributes,
/// visibility, signature), the body's inner attributes, and the body's
/// statements in order. The depth and lexer caveats of `parse_expr` apply
/// here too.
#[verifier::external_body]
pub(crate) fn parse_item_fn(src: &str) -> (r: Result<(String, String, Vec<String>), syn::Error>)
    ensures
        r is Ok <==> item_fn_accepts(src@),
        src@.len() == 0 ==> r is Err,
        r is Ok ==> (r->Ok_0).0@ == fn_header_text(src@),
        r is Ok ==> (r->Ok_0).1@ == fn_inner_attrs_text(src@),
        r is Ok ==> crate::transform::view_of_strings((r->Ok_0).2@) == fn_stmt_texts(src@),
{
    let f = match syn::parse_str::<syn::ItemFn>(src) { Ok(f) => f, Err(e) => return Err(e) };
    let mut header = proc_macro2::TokenStream::new();
    let mut inner = proc_macro2::TokenStream::new();
    for a in &f.attrs {
        match a.style {
            syn::AttrStyle::Outer => a.to_tokens(&mut header),
            syn::AttrStyle::Inner(_) => a.to_tokens(&mut inner),
        }
    }
    f.vis.to_tokens(&mut header);
    f.sig.to_tokens(&mut header);
    let stmts = f.block.stmts.iter().map(|s| s.to_token_stream().to_string()).collect();
    Ok((header.to_string(), inner.to_string(), stmts))
}

} // verus!
