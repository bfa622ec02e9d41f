//! The 16-bit null-terminated borrowed view.
//!
//! A `CStr16` owns no storage: it is a validated view over a caller-owned
//! sequence of 16-bit code units whose last unit is null and whose other
//! units are valid, non-null UCS-2 characters.

use crate::chars::{char_units, Char16};
use crate::errors::FromSliceUntilNulError;
use crate::errors::FromSliceWithNulError;
use crate::errors::FromStrWithBufError;
use crate::errors::UnalignedCStr16Error;
use crate::native::{char_from_u32, string_push};
use crate::ucs2::{
    decode_units, first_nul, first_special, is_special, is_surrogate, lemma_first_special_at,
    lemma_first_special_bounds, lemma_utf16_encode_len, lemma_utf16_encode_push,
    lemma_utf16_encode_split, units_le_bytes, utf16_encode, utf16_units_of, wf_units,
};
use vstd::prelude::*;
use vstd::slice::slice_subrange;
use vstd::string::StrSliceExecFns;

verus! {

/// A borrowed UCS-2 null-terminated string view.
#[derive(Debug)]
pub struct CStr16<'a> {
    units: &'a [u16],
}

impl<'a> View for CStr16<'a> {
    type V = Seq<u16>;

    closed spec fn view(&self) -> Seq<u16> {
        self.units@
    }
}

impl<'a> CStr16<'a> {
    #[verifier::type_invariant]
    spec fn inv(&self) -> bool {
        wf_units(self.units@)
    }

    /// Borrows a view of the units up to and including the first null,
    /// discarding everything after it; each unit before the null must be
    /// valid.
    pub fn from_u16_until_nul(codes: &'a [u16]) -> (r: Result<CStr16<'a>, FromSliceUntilNulError>)
        ensures
            match r {
                Ok(v) => ({
                    let k = first_special(codes@);
                    &&& k < codes@.len()
                    &&& codes@[k] == 0
                    &&& v@ == codes@.take(k + 1)
                    &&& wf_units(v@)
                }),
                Err(FromSliceUntilNulError::InvalidChar(p)) => {
                    &&& p == first_special(codes@)
                    &&& p < codes@.len()
                    &&& is_surrogate(codes@[p as int])
                },
                Err(FromSliceUntilNulError::NoNul) => first_special(codes@) == codes@.len(),
            },
    {
        let n = codes.len();
        let mut pos: usize = 0;
        while pos < n
            invariant
                0 <= pos <= n,
                n == codes@.len(),
                forall|j: int| 0 <= j < pos ==> !is_special(codes@[j]),
            decreases n - pos,
        {
            let u = codes[pos];
            if 0xD800 <= u && u <= 0xDFFF {
                proof {
                    crate::ucs2::lemma_first_special_at(codes@, pos as int);
                }
                return Err(FromSliceUntilNulError::InvalidChar(pos));
            }
            if u == 0 {
                proof {
                    crate::ucs2::lemma_first_special_at(codes@, pos as int);
                }
                let prefix = slice_subrange(codes, 0, pos + 1);
                proof {
                    assert(prefix@ =~= codes@.take(pos + 1));
                }
                return Ok(CStr16 { units: prefix });
            }
            pos += 1;
        }
        proof {
            crate::ucs2::lemma_first_special_at(codes@, n as int);
        }
        Err(FromSliceUntilNulError::NoNul)
    }

    /// Borrows a view of the whole unit sequence, which must consist of
    /// valid non-null units followed by exactly one trailing null.
    pub fn from_u16_with_nul(codes: &'a [u16]) -> (r: Result<CStr16<'a>, FromSliceWithNulError>)
        ensures
            match r {
                Ok(v) => wf_units(codes@) && v@ == codes@,
                Err(FromSliceWithNulError::InvalidChar(p)) => {
                    &&& p == first_special(codes@)
                    &&& p < codes@.len()
                    &&& is_surrogate(codes@[p as int])
                },
                Err(FromSliceWithNulError::InteriorNul(p)) => {
                    &&& p == first_special(codes@)
                    &&& p < codes@.len() - 1
                    &&& codes@[p as int] == 0
                },
                Err(FromSliceWithNulError::NotNulTerminated) => first_special(codes@)
                    == codes@.len(),
            },
    {
        let n = codes.len();
        let mut pos: usize = 0;
        while pos < n
            invariant
                0 <= pos <= n,
                n == codes@.len(),
                forall|j: int| 0 <= j < pos ==> !is_special(codes@[j]),
            decreases n - pos,
        {
            let u = codes[pos];
            if 0xD800 <= u && u <= 0xDFFF {
                proof {
                    crate::ucs2::lemma_first_special_at(codes@, pos as int);
                }
                return Err(FromSliceWithNulError::InvalidChar(pos));
            }
            if u == 0 {
                proof {
                    crate::ucs2::lemma_first_special_at(codes@, pos as int);
                }
                if pos + 1 != n {
                    return Err(FromSliceWithNulError::InteriorNul(pos));
                }
                return Ok(CStr16 { units: codes });
            }
            pos += 1;
        }
        proof {
            crate::ucs2::lemma_first_special_at(codes@, n as int);
        }
        Err(FromSliceWithNulError::NotNulTerminated)
    }

    /// Copies the validated units up to and including the first null into
    /// the caller's storage and views the copy, discarding everything after
    /// the null.  The view borrows the storage, not the input.
    pub fn from_char16_until_nul(chars: &[Char16], buf: &'a mut Vec<u16>) -> (r: Result<
        CStr16<'a>,
        FromSliceUntilNulError,
    >)
        ensures
            match r {
                Ok(v) => ({
                    let us = char_units(chars@);
                    let k = first_nul(us);
                    &&& k < us.len()
                    &&& v@ == us.take(k + 1)
                    &&& final(buf)@ == v@
                    &&& wf_units(v@)
                }),
                Err(FromSliceUntilNulError::NoNul) => {
                    &&& first_nul(char_units(chars@)) == chars@.len()
                    &&& final(buf)@ == old(buf)@
                },
                Err(FromSliceUntilNulError::InvalidChar(_)) => false,
            },
    {
        let ghost us = char_units(chars@);
        let n = chars.len();
        let mut e: usize = 0;
        while e < n
            invariant
                0 <= e <= n,
                n == chars@.len(),
                us == char_units(chars@),
                buf@ == old(buf)@,
                forall|j: int| 0 <= j < e ==> us[j] != 0,
            decreases n - e,
        {
            let c = chars[e];
            proof {
                assert(us[e as int] == chars@[e as int]@);
            }
            if c.is_nul() {
                proof {
                    crate::ucs2::lemma_first_nul_at(us, e as int);
                }
                buf.clear();
                let mut j: usize = 0;
                while j <= e
                    invariant
                        0 <= j <= e + 1,
                        e < n,
                        n == chars@.len(),
                        us == char_units(chars@),
                        us[e as int] == 0,
                        forall|t: int| 0 <= t < e ==> us[t] != 0,
                        buf@.len() == j,
                        forall|t: int| 0 <= t < j ==> buf@[t] == us[t],
                        forall|t: int| 0 <= t < j ==> !is_surrogate(us[t]),
                    decreases e + 1 - j,
                {
                    let cj = chars[j];
                    proof {
                        use_type_invariant(cj);
                        assert(us[j as int] == chars@[j as int]@);
                    }
                    buf.push(cj.as_u16());
                    j += 1;
                }
                let filled: &'a [u16] = buf.as_slice();
                proof {
                    assert(filled@ =~= us.take(e + 1));
                }
                return Ok(CStr16 { units: filled });
            }
            e += 1;
        }
        proof {
            crate::ucs2::lemma_first_nul_at(us, n as int);
        }
        Err(FromSliceUntilNulError::NoNul)
    }

    /// Copies the validated unit sequence, which must end in its only null,
    /// into the caller's storage and views the copy.
    pub fn from_char16_with_nul(chars: &[Char16], buf: &'a mut Vec<u16>) -> (r: Result<
        CStr16<'a>,
        FromSliceWithNulError,
    >)
        ensures
            match r {
                Ok(v) => ({
                    let us = char_units(chars@);
                    &&& us.len() >= 1
                    &&& first_nul(us) == us.len() - 1
                    &&& us.last() == 0
                    &&& v@ == us
                    &&& final(buf)@ == v@
                    &&& wf_units(v@)
                }),
                Err(FromSliceWithNulError::InteriorNul(p)) => {
                    let us = char_units(chars@);
                    &&& p == first_nul(us)
                    &&& p < us.len() - 1
                    &&& us[p as int] == 0
                    &&& final(buf)@ == old(buf)@
                },
                Err(FromSliceWithNulError::NotNulTerminated) => {
                    &&& first_nul(char_units(chars@)) == chars@.len()
                    &&& final(buf)@ == old(buf)@
                },
                Err(FromSliceWithNulError::InvalidChar(_)) => false,
            },
    {
        let ghost us = char_units(chars@);
        let n = chars.len();
        let mut e: usize = 0;
        while e < n
            invariant
                0 <= e <= n,
                n == chars@.len(),
                us == char_units(chars@),
                buf@ == old(buf)@,
                forall|j: int| 0 <= j < e ==> us[j] != 0,
            decreases n - e,
        {
            let c = chars[e];
            proof {
                assert(us[e as int] == chars@[e as int]@);
            }
            if c.is_nul() {
                proof {
                    crate::ucs2::lemma_first_nul_at(us, e as int);
                    assert(us.len() == n);
                }
                if e + 1 != n {
                    return Err(FromSliceWithNulError::InteriorNul(e));
                }
                buf.clear();
                let mut j: usize = 0;
                while j < n
                    invariant
                        0 <= j <= n,
                        e == n - 1,
                        n == chars@.len(),
                        us == char_units(chars@),
                        us[e as int] == 0,
                        forall|t: int| 0 <= t < e ==> us[t] != 0,
                        buf@.len() == j,
                        forall|t: int| 0 <= t < j ==> buf@[t] == us[t],
                        forall|t: int| 0 <= t < j ==> !is_surrogate(us[t]),
                    decreases n - j,
                {
                    let cj = chars[j];
                    proof {
                        use_type_invariant(cj);
                        assert(us[j as int] == chars@[j as int]@);
                    }
                    buf.push(cj.as_u16());
                    j += 1;
                }
                let filled: &'a [u16] = buf.as_slice();
                proof {
                    assert(filled@ =~= us);
                }
                return Ok(CStr16 { units: filled });
            }
            e += 1;
        }
        proof {
            crate::ucs2::lemma_first_nul_at(us, n as int);
        }
        Err(FromSliceWithNulError::NotNulTerminated)
    }

    /// Copies validated units into the caller's storage and views the copy
    /// without checking for the trailing null.  The caller upholds the
    /// null-termination invariant instead.
    pub fn from_char16_with_nul_unchecked(chars: &[Char16], buf: &'a mut Vec<u16>) -> (r: CStr16<
        'a,
    >)
        requires
            char_units(chars@).len() >= 1,
            char_units(chars@).last() == 0,
            forall|j: int| 0 <= j < chars@.len() - 1 ==> char_units(chars@)[j] != 0,
        ensures
            r@ == char_units(chars@),
            final(buf)@ == r@,
    {
        let ghost us = char_units(chars@);
        let n = chars.len();
        buf.clear();
        let mut j: usize = 0;
        while j < n
            invariant
                0 <= j <= n,
                n == chars@.len(),
                us == char_units(chars@),
                buf@.len() == j,
                forall|t: int| 0 <= t < j ==> buf@[t] == us[t],
                forall|t: int| 0 <= t < j ==> !is_surrogate(us[t]),
            decreases n - j,
        {
            let cj = chars[j];
            proof {
                use_type_invariant(cj);
                assert(us[j as int] == chars@[j as int]@);
            }
            buf.push(cj.as_u16());
            j += 1;
        }
        let filled: &'a [u16] = buf.as_slice();
        proof {
            assert(filled@ =~= us);
        }
        CStr16 { units: filled }
    }

    /// Encodes a native string into the caller's storage, one emitted
    /// 16-bit unit at a time followed by one trailing null, checking the
    /// remaining capacity before every write, then validates the filled
    /// span.  An invalid unit can only arise from a surrogate pair emitted
    /// for a character outside the 16-bit range.
    pub fn from_str_with_buf(input: &str, buf: &'a mut Vec<u16>) -> (r: Result<
        CStr16<'a>,
        FromStrWithBufError,
    >)
        ensures
            final(buf)@.len() == old(buf)@.len(),
            ({
                let units = utf16_encode(input@);
                let cap = old(buf)@.len();
                match r {
                    Ok(v) => {
                        &&& units.len() + 1 <= cap
                        &&& first_special(units) == units.len()
                        &&& v@ == units.push(0u16)
                        &&& wf_units(v@)
                        &&& final(buf)@ == units.push(0u16) + old(buf)@.skip(
                            units.len() as int + 1,
                        )
                    },
                    Err(FromStrWithBufError::BufferTooSmall) => units.len() + 1 > cap,
                    Err(FromStrWithBufError::InvalidChar(p)) => {
                        &&& units.len() + 1 <= cap
                        &&& p == first_special(units)
                        &&& p < units.len()
                        &&& is_surrogate(units[p as int])
                    },
                    Err(FromStrWithBufError::InteriorNul(p)) => {
                        &&& units.len() + 1 <= cap
                        &&& p == first_special(units)
                        &&& p < units.len()
                        &&& units[p as int] == 0
                    },
                }
            }),
    {
        let ghost chars = input@;
        let ghost units = utf16_encode(chars);
        let cap = buf.len();
        let nchars = input.unicode_len();
        let mut index: usize = 0;
        let mut i: usize = 0;
        while i < nchars
            invariant
                0 <= i <= chars.len(),
                chars == input@,
                units == utf16_encode(chars),
                nchars == chars.len(),
                cap == old(buf)@.len(),
                buf@.len() == cap,
                index <= cap,
                index == utf16_encode(chars.take(i as int)).len(),
                buf@ == utf16_encode(chars.take(i as int)) + old(buf)@.skip(index as int),
            decreases nchars - i,
        {
            let c = input.get_char(i);
            let v: u32 = c as u32;
            proof {
                vstd::utf8::char_is_scalar(c);
                lemma_utf16_encode_push(chars.take(i as int), c);
                assert(chars.take(i as int).push(c) =~= chars.take(i + 1));
                lemma_utf16_encode_split(chars, i + 1);
                lemma_utf16_encode_len(chars.skip(i + 1));
            }
            if v < 0x10000 {
                proof {
                    assert(utf16_units_of(c) =~= seq![(v as u16)]);
                    assert(utf16_encode(chars.take(i + 1)).len() == index + 1);
                }
                if index >= cap {
                    return Err(FromStrWithBufError::BufferTooSmall);
                }
                buf[index] = v as u16;
                index += 1;
                proof {
                    assert(buf@ =~= utf16_encode(chars.take(i + 1)) + old(buf)@.skip(
                        index as int,
                    ));
                }
            } else {
                let w: u32 = v - 0x10000;
                let hi: u32 = 0xD800 + w / 0x400;
                let lo: u32 = 0xDC00 + w % 0x400;
                proof {
                    assert(utf16_units_of(c) =~= seq![(hi as u16), (lo as u16)]);
                    assert(utf16_encode(chars.take(i + 1)).len() == index + 2);
                }
                if index >= cap {
                    return Err(FromStrWithBufError::BufferTooSmall);
                }
                buf[index] = hi as u16;
                index += 1;
                if index >= cap {
                    return Err(FromStrWithBufError::BufferTooSmall);
                }
                buf[index] = lo as u16;
                index += 1;
                proof {
                    assert(buf@ =~= utf16_encode(chars.take(i + 1)) + old(buf)@.skip(
                        index as int,
                    ));
                }
            }
            i += 1;
        }
        proof {
            assert(chars.take(nchars as int) =~= chars);
            assert(index == units.len());
        }
        if index >= cap {
            return Err(FromStrWithBufError::BufferTooSmall);
        }
        buf[index] = 0;
        let filled: &'a [u16] = slice_subrange(buf.as_slice(), 0, index + 1);
        proof {
            assert(filled@ =~= units.push(0u16));
            assert(buf@ =~= units.push(0u16) + old(buf)@.skip(index + 1));
        }
        match CStr16::from_u16_with_nul(filled) {
            Ok(v) => {
                proof {
                    assert forall|j: int| 0 <= j < units.len() implies !is_special(units[j]) by {
                        assert(units[j] == filled@[j]);
                    }
                    lemma_first_special_at(units, units.len() as int);
                }
                Ok(v)
            },
            Err(FromSliceWithNulError::InvalidChar(p)) => {
                proof {
                    lemma_first_special_bounds(filled@);
                    assert(filled@[p as int] == units[p as int]);
                    assert forall|j: int| 0 <= j < p implies !is_special(units[j]) by {
                        assert(units[j] == filled@[j]);
                    }
                    lemma_first_special_at(units, p as int);
                }
                Err(FromStrWithBufError::InvalidChar(p))
            },
            Err(FromSliceWithNulError::InteriorNul(p)) => {
                proof {
                    lemma_first_special_bounds(filled@);
                    assert(filled@[p as int] == units[p as int]);
                    assert forall|j: int| 0 <= j < p implies !is_special(units[j]) by {
                        assert(units[j] == filled@[j]);
                    }
                    lemma_first_special_at(units, p as int);
                }
                Err(FromStrWithBufError::InteriorNul(p))
            },
            Err(FromSliceWithNulError::NotNulTerminated) => {
                // cannot occur: the span just written ends in its null unit
                proof {
                    assert(is_special(filled@[filled@.len() - 1]));
                    lemma_first_special_bounds(filled@);
                    assert(false);
                }
                Err(FromStrWithBufError::BufferTooSmall)
            },
        }
    }

    /// Borrows a view without validating.  The caller upholds the invariant
    /// instead: callable only where well-formedness is already established.
    pub fn from_u16_with_nul_unchecked(codes: &'a [u16]) -> (r: CStr16<'a>)
        requires
            wf_units(codes@),
        ensures
            r@ == codes@,
    {
        CStr16 { units: codes }
    }

    /// Copies a possibly-misaligned source unit by unit into the caller's
    /// aligned storage, then validates the copy.  The view borrows the
    /// storage, not the source.
    pub fn from_unaligned_slice(
        src: &crate::unaligned::UnalignedSlice<'_>,
        buf: &'a mut Vec<u16>,
    ) -> (r: Result<CStr16<'a>, UnalignedCStr16Error>)
        ensures
            final(buf)@.len() == old(buf)@.len(),
            src@.len() <= old(buf)@.len() ==> final(buf)@ == src@ + old(buf)@.skip(
                src@.len() as int,
            ),
            src@.len() > old(buf)@.len() ==> final(buf)@ == old(buf)@,
            match r {
                Ok(v) => {
                    &&& src@.len() <= old(buf)@.len()
                    &&& wf_units(src@)
                    &&& v@ == src@
                },
                Err(UnalignedCStr16Error::BufferTooSmall) => src@.len() > old(buf)@.len(),
                Err(UnalignedCStr16Error::InvalidChar(p)) => {
                    &&& src@.len() <= old(buf)@.len()
                    &&& p == first_special(src@)
                    &&& p < src@.len()
                    &&& is_surrogate(src@[p as int])
                },
                Err(UnalignedCStr16Error::InteriorNul(p)) => {
                    &&& src@.len() <= old(buf)@.len()
                    &&& p == first_special(src@)
                    &&& p < src@.len() - 1
                    &&& src@[p as int] == 0
                },
                Err(UnalignedCStr16Error::NotNulTerminated) => {
                    &&& src@.len() <= old(buf)@.len()
                    &&& first_special(src@) == src@.len()
                },
            },
    {
        let srclen = src.len();
        let cap = buf.len();
        if srclen > cap {
            return Err(UnalignedCStr16Error::BufferTooSmall);
        }
        let mut i: usize = 0;
        while i < srclen
            invariant
                0 <= i <= srclen,
                srclen == src@.len(),
                srclen <= cap,
                cap == old(buf)@.len(),
                buf@.len() == cap,
                forall|j: int| 0 <= j < i ==> buf@[j] == src@[j],
                forall|j: int| i <= j < cap ==> buf@[j] == old(buf)@[j],
            decreases srclen - i,
        {
            let u = src.read_unit(i);
            buf[i] = u;
            i += 1;
        }
        proof {
            assert(buf@ =~= src@ + old(buf)@.skip(srclen as int));
        }
        let filled: &'a [u16] = slice_subrange(buf.as_slice(), 0, srclen);
        proof {
            assert(filled@ =~= src@);
        }
        match CStr16::from_u16_with_nul(filled) {
            Ok(v) => Ok(v),
            Err(FromSliceWithNulError::InvalidChar(p)) => Err(UnalignedCStr16Error::InvalidChar(p)),
            Err(FromSliceWithNulError::InteriorNul(p)) => Err(UnalignedCStr16Error::InteriorNul(p)),
            Err(FromSliceWithNulError::NotNulTerminated) => Err(
                UnalignedCStr16Error::NotNulTerminated,
            ),
        }
    }

    /// The units without the trailing null, as raw units.
    pub fn to_u16_slice(&self) -> (r: &'a [u16])
        ensures
            r@ == self@.take(self@.len() - 1),
    {
        proof {
            use_type_invariant(self);
        }
        let r = slice_subrange(self.units, 0, self.units.len() - 1);
        proof {
            assert(r@ =~= self@.take(self@.len() - 1));
        }
        r
    }

    /// The units including the trailing null, as raw units.
    pub fn to_u16_slice_with_nul(&self) -> (r: &'a [u16])
        ensures
            r@ == self@,
    {
        self.units
    }

    /// The number of characters, the trailing null excluded.
    pub fn num_chars(&self) -> (r: usize)
        ensures
            r == self@.len() - 1,
    {
        proof {
            use_type_invariant(self);
        }
        self.units.len() - 1
    }

    /// True when the string holds nothing but its trailing null.
    pub fn is_empty(&self) -> (r: bool)
        ensures
            r == (self@.len() == 1),
    {
        self.num_chars() == 0
    }

    /// The storage size in bytes, the trailing null included.
    pub fn num_bytes(&self) -> (r: usize)
        requires
            2 * self@.len() <= usize::MAX,
        ensures
            r == 2 * self@.len(),
    {
        self.units.len() * 2
    }

    /// The validated units without the trailing null.
    pub fn as_slice(&self) -> (r: Vec<Char16>)
        ensures
            char_units(r@) == self@.take(self@.len() - 1),
    {
        proof {
            use_type_invariant(self);
        }
        let mut v = self.as_slice_with_nul();
        let _ = v.pop();
        proof {
            assert(char_units(v@) =~= self@.take(self@.len() - 1));
        }
        v
    }

    /// The validated units including the trailing null.
    pub fn as_slice_with_nul(&self) -> (r: Vec<Char16>)
        ensures
            char_units(r@) == self@,
    {
        proof {
            use_type_invariant(self);
        }
        let n = self.units.len();
        let mut out: Vec<Char16> = Vec::new();
        let mut pos: usize = 0;
        while pos < n
            invariant
                0 <= pos <= n,
                n == self@.len(),
                self@ == self.units@,
                wf_units(self@),
                out@.len() == pos,
                forall|j: int| 0 <= j < pos ==> (#[trigger] out@[j])@ == self@[j],
            decreases n - pos,
        {
            let u = self.units[pos];
            proof {
                assert(!is_surrogate(self@[pos as int]));
            }
            let c = Char16::try_from_u16(u).unwrap();
            out.push(c);
            pos += 1;
        }
        proof {
            assert(char_units(out@) =~= self@);
        }
        out
    }

    /// An iterator over the characters, the trailing null excluded.  The
    /// iterator borrows the same storage, so iteration can be restarted by
    /// obtaining a fresh one.
    pub fn iter(&self) -> (r: CStr16Iter<'a>)
        ensures
            r.units_seq() == self@,
            r.position() == 0,
    {
        proof {
            use_type_invariant(self);
        }
        CStr16Iter { units: self.units, pos: 0 }
    }

    /// Appends each character to the native buffer, the trailing null
    /// excluded.
    pub fn as_str_in_buf(&self, buf: &mut String)
        ensures
            final(buf)@ == old(buf)@ + decode_units(self@.take(self@.len() - 1)),
    {
        proof {
            use_type_invariant(self);
        }
        let ghost buf0 = buf@;
        let n = self.units.len();
        let mut pos: usize = 0;
        while pos < n - 1
            invariant
                0 <= pos <= n - 1,
                n == self@.len(),
                self@ == self.units@,
                wf_units(self@),
                buf@ == buf0 + decode_units(self@.take(pos as int)),
            decreases n - 1 - pos,
        {
            let u = self.units[pos];
            proof {
                assert(!is_special(self@[pos as int]));
            }
            let c = char_from_u32(u as u32).unwrap();
            string_push(buf, c);
            proof {
                vstd::utf8::char_u32_cast(c, u as u32);
                assert(decode_units(self@.take(pos + 1)) =~= decode_units(
                    self@.take(pos as int),
                ).push((u as u32) as char));
            }
            pos += 1;
        }
        proof {
            assert(self@.take(n - 1) =~= self@.take(self@.len() - 1));
        }
    }

    /// The characters as a native string, the trailing null excluded.
    pub fn to_string(&self) -> (r: String)
        ensures
            r@ == decode_units(self@.take(self@.len() - 1)),
    {
        let mut s = String::new();
        self.as_str_in_buf(&mut s);
        proof {
            assert(Seq::<char>::empty() + decode_units(self@.take(self@.len() - 1))
                =~= decode_units(self@.take(self@.len() - 1)));
        }
        s
    }

    /// The storage seen as raw little-endian bytes, the trailing null
    /// included.
    pub fn as_bytes(&self) -> (r: Vec<u8>)
        ensures
            r@ == units_le_bytes(self@),
    {
        proof {
            use_type_invariant(self);
        }
        let n = self.units.len();
        let mut out: Vec<u8> = Vec::new();
        let mut pos: usize = 0;
        while pos < n
            invariant
                0 <= pos <= n,
                n == self@.len(),
                self@ == self.units@,
                out@.len() == 2 * pos,
                forall|j: int| 0 <= j < 2 * pos ==> out@[j] == units_le_bytes(self@)[j],
            decreases n - pos,
        {
            let u = self.units[pos];
            out.push((u % 256) as u8);
            out.push((u / 256) as u8);
            pos += 1;
        }
        proof {
            assert(out@ =~= units_le_bytes(self@));
        }
        out
    }

    /// True when every unit, the trailing null included, lies in the 7-bit
    /// range.
    pub fn is_ascii(&self) -> (r: bool)
        ensures
            r == forall|i: int| 0 <= i < self@.len() ==> self@[i] < 0x80,
    {
        let n = self.units.len();
        let mut pos: usize = 0;
        while pos < n
            invariant
                0 <= pos <= n,
                n == self@.len(),
                self@ == self.units@,
                forall|j: int| 0 <= j < pos ==> self@[j] < 0x80,
            decreases n - pos,
        {
            if self.units[pos] >= 0x80 {
                return false;
            }
            pos += 1;
        }
        true
    }
}

/// An iterator over the characters of a view, stopping one unit before the
/// trailing null and never yielding it.
#[derive(Debug)]
pub struct CStr16Iter<'a> {
    units: &'a [u16],
    pos: usize,
}

impl<'a> CStr16Iter<'a> {
    #[verifier::type_invariant]
    spec fn inv(&self) -> bool {
        wf_units(self.units@) && self.pos <= self.units@.len()
    }

    /// The unit sequence being iterated, the trailing null included.
    pub closed spec fn units_seq(&self) -> Seq<u16> {
        self.units@
    }

    /// How many characters have been yielded so far.
    pub closed spec fn position(&self) -> int {
        self.pos as int
    }

    /// The next character, or `None` once the character before the trailing
    /// null has been yielded.
    pub fn next(&mut self) -> (r: Option<Char16>)
        ensures
            old(self).units_seq() == final(self).units_seq(),
            match r {
                Some(c) => {
                    &&& old(self).position() < old(self).units_seq().len() - 1
                    &&& c@ == old(self).units_seq()[old(self).position()]
                    &&& final(self).position() == old(self).position() + 1
                },
                None => {
                    &&& old(self).position() >= old(self).units_seq().len() - 1
                    &&& final(self).position() == old(self).position()
                },
            },
    {
        proof {
            use_type_invariant(&*self);
        }
        let n = self.units.len();
        if self.pos >= n - 1 {
            None
        } else {
            let u = self.units[self.pos];
            proof {
                assert(!is_special(self.units@[self.pos as int]));
            }
            self.pos = self.pos + 1;
            Some(Char16::try_from_u16(u).unwrap())
        }
    }
}

} // verus!
