//! Trusted bridges to native text operations that vstd leaves unspecified.

use vstd::prelude::*;

verus! {

/// Relies on `char::from_u32`: its documentation promises `Some` exactly for
/// values that are not surrogates and lie at or below 0x10FFFF, with the
/// resulting character converting back to the same value.
#[verifier::external_body]
pub(crate) fn char_from_u32(u: u32) -> (r: Option<char>)
    ensures
        match r {
            Some(c) => !(0xD800 <= u <= 0xDFFF) && u <= 0x10FFFF && c as u32 == u,
            None => (0xD800 <= u <= 0xDFFF) || u > 0x10FFFF,
        },
{
    char::from_u32(u)
}

/// Relies on `String::push`: its documentation promises that the given
/// character is appended at the end.
#[verifier::external_body]
pub(crate) fn string_push(s: &mut String, c: char)
    ensures
        final(s)@ == old(s)@.push(c),
{
    s.push(c)
}

} // verus!
