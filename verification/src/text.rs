use vstd::prelude::*;

verus! {

/// Relies on `String`'s `FromIterator<char>` impl: collecting characters
/// builds the string holding exactly those characters, in order.
#[verifier::external_body]
pub(crate) fn chars_to_string(chars: &Vec<char>) -> (s: String)
    ensures
        s@ == chars@,
{
    chars.iter().collect()
}

} // verus!
