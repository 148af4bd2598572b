//! Normalization of chain identifiers to their canonical upper case, so
//! that registry lookups are case-insensitive at the boundary but
//! case-exact internally.

use vstd::prelude::*;

verus! {

/// The upper-case form of a sequence of characters. The mapping itself is
/// Unicode case conversion, named here rather than spelled out; it depends
/// on the characters alone.
pub uninterp spec fn upper_of(s: Seq<char>) -> Seq<char>;

/// Relies on str::to_uppercase: returns the upper-case equivalent of the
/// string; the result depends on the input characters alone.
#[verifier::external_body]
pub(crate) fn to_upper(s: &str) -> (r: String)
    ensures
        r@ == upper_of(s@),
{
    s.to_uppercase()
}

} // verus!
