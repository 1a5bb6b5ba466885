//! Lower-camel-case conversion of identifier stems, delegated to the
//! `heck` crate.

use vstd::prelude::*;

verus! {

/// The lowerCamelCase form of a character sequence: words are split on
/// non-alphanumeric separators and on case transitions, the first word is
/// lowercased, every later word is capitalized, and the separators are
/// dropped.  The character-level result is not modelled here; the name lets
/// contracts speak of it exactly.
pub uninterp spec fn lower_camel_of(s: Seq<char>) -> Seq<char>;

/// Relies on `heck::ToLowerCamelCase::to_lower_camel_case` for `str`:
/// its result depends on the characters of the input alone.
#[verifier::external_body]
pub(crate) fn to_lower_camel(s: &str) -> (r: String)
    ensures
        r@ == lower_camel_of(s@),
{
    heck::ToLowerCamelCase::to_lower_camel_case(s)
}

} // verus!
