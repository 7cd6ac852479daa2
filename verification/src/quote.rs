//! Shell quoting of single words.

use vstd::prelude::*;

verus! {

/// What `snailquote::escape` returns for `s`: `s` itself where no character
/// of it needs quoting, else `s` in single or double quotes, with escapes
/// inside double quotes.
pub uninterp spec fn shell_escaped(s: Seq<char>) -> Seq<char>;

/// Calls `snailquote::escape`. Believed: the result is what
/// [`shell_escaped`] names.
#[verifier::external_body]
pub(crate) fn escape(s: &str) -> (r: String)
    ensures
        r@ == shell_escaped(s@),
{
    snailquote::escape(s).into_owned()
}

} // verus!
