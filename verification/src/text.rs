//! Address case folding, used to normalize server addresses into cache
//! identity keys.

use vstd::prelude::*;

verus! {

/// What lowercasing returns for a string: Unicode case folding takes
/// pages to state, but it depends on the characters alone, so the result
/// bears a name instead.
pub uninterp spec fn lower_of(s: Seq<char>) -> Seq<char>;

/// Relies on `str::to_lowercase`: the result depends on the characters
/// alone, in every process and on every machine.
#[verifier::external_body]
pub(crate) fn to_lowercase(s: &str) -> (r: String)
    ensures
        r@ == lower_of(s@),
{
    s.to_lowercase()
}

} // verus!
