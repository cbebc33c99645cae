//! A small trusted helper for building strings character by character.

use vstd::prelude::*;

verus! {

/// Relies on std's `String::push`: it appends exactly the given character to
/// the end of the string.
#[verifier::external_body]
pub(crate) fn push_char(s: &mut String, c: char)
    ensures
        final(s)@ == old(s)@.push(c),
{
    s.push(c);
}

} // verus!
