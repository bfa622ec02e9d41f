//! Ingestion from possibly-misaligned storage.
//!
//! An `UnalignedSlice` views 16-bit code units held in byte storage whose
//! address need not satisfy the unit's natural alignment, so it exposes
//! only unit-wise reads; ingestion copies unit by unit into naturally
//! aligned caller storage, never reinterpreting the bytes in bulk.  Units
//! are stored little-endian.

use crate::cstr16::CStr16;
use crate::errors::UnalignedCStr16Error;
use vstd::prelude::*;

verus! {

/// A borrowed view over 16-bit units in byte storage of arbitrary
/// alignment.
#[derive(Debug)]
pub struct UnalignedSlice<'a> {
    bytes: &'a [u8],
}

impl<'a> View for UnalignedSlice<'a> {
    type V = Seq<u16>;

    closed spec fn view(&self) -> Seq<u16> {
        Seq::new(
            self.bytes@.len() / 2,
            |i: int| (self.bytes@[2 * i] + 256 * self.bytes@[2 * i + 1]) as u16,
        )
    }
}

impl<'a> UnalignedSlice<'a> {
    #[verifier::type_invariant]
    spec fn inv(&self) -> bool {
        self.bytes@.len() % 2 == 0
    }

    /// Views byte storage holding whole little-endian units; the byte
    /// length must therefore be even.
    pub fn new(bytes: &'a [u8]) -> (r: UnalignedSlice<'a>)
        requires
            bytes@.len() % 2 == 0,
        ensures
            r@.len() == bytes@.len() / 2,
            forall|i: int| 0 <= i < r@.len() ==> r@[i] == bytes@[2 * i] + 256 * bytes@[2 * i + 1],
    {
        UnalignedSlice { bytes }
    }

    /// The number of units.
    pub fn len(&self) -> (r: usize)
        ensures
            r == self@.len(),
    {
        self.bytes.len() / 2
    }

    /// Reads one unit from its two little-endian bytes.
    pub fn read_unit(&self, i: usize) -> (r: u16)
        requires
            i < self@.len(),
        ensures
            r == self@[i as int],
    {
        proof {
            use_type_invariant(self);
        }
        let n = self.bytes.len();
        proof {
            assert(2 * i + 1 < n);
        }
        let lo = self.bytes[2 * i];
        let hi = self.bytes[2 * i + 1];
        (lo as u16) + 256 * (hi as u16)
    }

    /// Copies this source into aligned caller storage and validates the
    /// copy, exactly as `CStr16::from_unaligned_slice` does.
    pub fn to_cstr16<'buf>(&self, buf: &'buf mut Vec<u16>) -> (r: Result<
        CStr16<'buf>,
        UnalignedCStr16Error,
    >)
        ensures
            final(buf)@.len() == old(buf)@.len(),
            self@.len() <= old(buf)@.len() ==> final(buf)@ == self@ + old(buf)@.skip(
                self@.len() as int,
            ),
            self@.len() > old(buf)@.len() ==> final(buf)@ == old(buf)@,
            match r {
                Ok(v) => {
                    &&& self@.len() <= old(buf)@.len()
                    &&& crate::ucs2::wf_units(self@)
                    &&& v@ == self@
                },
                Err(UnalignedCStr16Error::BufferTooSmall) => self@.len() > old(buf)@.len(),
                Err(UnalignedCStr16Error::InvalidChar(p)) => {
                    &&& self@.len() <= old(buf)@.len()
                    &&& p == crate::ucs2::first_special(self@)
                    &&& p < self@.len()
                    &&& crate::ucs2::is_surrogate(self@[p as int])
                },
                Err(UnalignedCStr16Error::InteriorNul(p)) => {
                    &&& self@.len() <= old(buf)@.len()
                    &&& p == crate::ucs2::first_special(self@)
                    &&& p < self@.len() - 1
                    &&& self@[p as int] == 0
                },
                Err(UnalignedCStr16Error::NotNulTerminated) => {
                    &&& self@.len() <= old(buf)@.len()
                    &&& crate::ucs2::first_special(self@) == self@.len()
                },
            },
    {
        CStr16::from_unaligned_slice(self, buf)
    }
}

} // verus!
