//! Character-level helpers shared by the log and the prompt widgets.

use vstd::prelude::*;

verus! {

/// Relies on `FromIterator<char> for String`: collecting characters gives the
/// string made of exactly those characters, in order.
#[verifier::external_body]
pub(crate) fn string_from_chars(chars: &Vec<char>) -> (r: String)
    ensures
        r@ == chars@,
{
    chars.iter().collect()
}

} // verus!
