//! The validated 16-bit code unit.
//!
//! A `Char16` holds one UCS-2 code unit: any 16-bit value outside the
//! surrogate range.  Construction validates; every held unit is valid.

use crate::ucs2::is_surrogate;
use vstd::prelude::*;

verus! {

#[derive(Clone, Copy, Debug, PartialEq, Eq, Structural)]
pub struct Char16 {
    unit: u16,
}

impl View for Char16 {
    type V = u16;

    closed spec fn view(&self) -> u16 {
        self.unit
    }
}

impl Char16 {
    #[verifier::type_invariant]
    pub(crate) open spec fn inv(&self) -> bool {
        !is_surrogate(self@)
    }

    /// Validated construction from a raw 16-bit unit: rejects surrogates.
    pub fn try_from_u16(u: u16) -> (r: Option<Char16>)
        ensures
            match r {
                Some(c) => !is_surrogate(u) && c@ == u,
                None => is_surrogate(u),
            },
    {
        if 0xD800 <= u && u <= 0xDFFF {
            None
        } else {
            Some(Char16 { unit: u })
        }
    }

    /// Validated construction from a native character: rejects characters
    /// above the 16-bit range.  A native character is never a surrogate.
    pub fn try_from_char(c: char) -> (r: Option<Char16>)
        ensures
            match r {
                Some(ch) => (c as u32) <= 0xFFFF && ch@ == (c as u32) as u16,
                None => (c as u32) > 0xFFFF,
            },
    {
        let v: u32 = c as u32;
        if v <= 0xFFFF {
            proof {
                vstd::utf8::char_is_scalar(c);
            }
            Some(Char16 { unit: v as u16 })
        } else {
            None
        }
    }

    /// The raw 16-bit unit.
    pub fn as_u16(&self) -> (r: u16)
        ensures
            r == self@,
    {
        self.unit
    }

    pub fn is_nul(&self) -> (r: bool)
        ensures
            r == (self@ == 0),
    {
        self.unit == 0
    }

    /// The null unit, which terminates every view.
    pub fn nul() -> (r: Char16)
        ensures
            r@ == 0,
    {
        Char16 { unit: 0 }
    }
}

/// The raw units held by a sequence of validated units.
pub open spec fn char_units(s: Seq<Char16>) -> Seq<u16> {
    s.map(|i: int, c: Char16| c@)
}

} // verus!
