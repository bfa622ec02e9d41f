//! The 8-bit null-terminated borrowed view.
//!
//! A `CStr8` is a validated view over a caller-owned sequence of Latin-1
//! bytes whose last byte is null and whose other bytes are not.  Every
//! 8-bit value is a valid Latin-1 character, so only null placement is
//! validated.

use crate::errors::FromSliceWithNulError;
use crate::native::{char_from_u32, string_push};
use vstd::prelude::*;

verus! {

/// The invariant of every 8-bit view: at least the terminator, the last
/// byte null, and no other byte null.
pub open spec fn wf_bytes(s: Seq<u8>) -> bool {
    &&& s.len() >= 1
    &&& s.last() == 0
    &&& forall|i: int| 0 <= i < s.len() - 1 ==> s[i] != 0
}

/// Index of the first null byte; `s.len()` when there is none.
pub open spec fn first_nul_bytes(s: Seq<u8>) -> int
    decreases s.len(),
{
    if s.len() == 0 {
        0
    } else if s[0] == 0 {
        0
    } else {
        1 + first_nul_bytes(s.drop_first())
    }
}

pub proof fn lemma_first_nul_bytes_at(s: Seq<u8>, i: int)
    requires
        0 <= i <= s.len(),
        forall|j: int| 0 <= j < i ==> s[j] != 0,
        i < s.len() ==> s[i] == 0,
    ensures
        first_nul_bytes(s) == i,
    decreases s.len(),
{
    if s.len() != 0 && s[0] != 0 {
        assert(forall|j: int| 0 <= j < i - 1 ==> s.drop_first()[j] == s[j + 1]);
        lemma_first_nul_bytes_at(s.drop_first(), i - 1);
    }
}

/// Each Latin-1 byte read back as the native character with the same
/// scalar value.
pub open spec fn latin1_decode(s: Seq<u8>) -> Seq<char> {
    s.map(|i: int, b: u8| (b as u32) as char)
}

/// A borrowed Latin-1 null-terminated string view.
#[derive(Debug)]
pub struct CStr8<'a> {
    units: &'a [u8],
}

impl<'a> View for CStr8<'a> {
    type V = Seq<u8>;

    closed spec fn view(&self) -> Seq<u8> {
        self.units@
    }
}

impl<'a> CStr8<'a> {
    #[verifier::type_invariant]
    spec fn inv(&self) -> bool {
        wf_bytes(self.units@)
    }

    /// Borrows a view of the whole byte sequence, which must end in its
    /// only null byte.
    pub fn from_bytes_with_nul(chars: &'a [u8]) -> (r: Result<CStr8<'a>, FromSliceWithNulError>)
        ensures
            match r {
                Ok(v) => wf_bytes(chars@) && v@ == chars@,
                Err(FromSliceWithNulError::InteriorNul(p)) => {
                    &&& p == first_nul_bytes(chars@)
                    &&& p < chars@.len() - 1
                    &&& chars@[p as int] == 0
                },
                Err(FromSliceWithNulError::NotNulTerminated) => first_nul_bytes(chars@)
                    == chars@.len(),
                Err(FromSliceWithNulError::InvalidChar(_)) => false,
            },
    {
        let n = chars.len();
        let mut pos: usize = 0;
        while pos < n
            invariant
                0 <= pos <= n,
                n == chars@.len(),
                forall|j: int| 0 <= j < pos ==> chars@[j] != 0,
            decreases n - pos,
        {
            if chars[pos] == 0 {
                proof {
                    lemma_first_nul_bytes_at(chars@, pos as int);
                }
                if pos + 1 != n {
                    return Err(FromSliceWithNulError::InteriorNul(pos));
                }
                return Ok(CStr8 { units: chars });
            }
            pos += 1;
        }
        proof {
            lemma_first_nul_bytes_at(chars@, n as int);
        }
        Err(FromSliceWithNulError::NotNulTerminated)
    }

    /// Borrows a view without validating.  The caller upholds the invariant
    /// instead: callable only where well-formedness is already established.
    pub fn from_bytes_with_nul_unchecked(chars: &'a [u8]) -> (r: CStr8<'a>)
        requires
            wf_bytes(chars@),
        ensures
            r@ == chars@,
    {
        CStr8 { units: chars }
    }

    /// The underlying bytes, the trailing null included.
    pub fn as_bytes(&self) -> (r: &'a [u8])
        ensures
            r@ == self@,
    {
        self.units
    }

    /// The characters as a native string, the trailing null excluded.
    pub fn to_string(&self) -> (r: String)
        ensures
            r@ == latin1_decode(self@.take(self@.len() - 1)),
    {
        proof {
            use_type_invariant(self);
        }
        let n = self.units.len();
        let mut s = String::new();
        let mut pos: usize = 0;
        while pos < n - 1
            invariant
                0 <= pos <= n - 1,
                n == self@.len(),
                self@ == self.units@,
                s@ == latin1_decode(self@.take(pos as int)),
            decreases n - 1 - pos,
        {
            let b = self.units[pos];
            let c = char_from_u32(b as u32).unwrap();
            string_push(&mut s, c);
            proof {
                vstd::utf8::char_u32_cast(c, b as u32);
                assert(latin1_decode(self@.take(pos + 1)) =~= latin1_decode(
                    self@.take(pos as int),
                ).push((b as u32) as char));
            }
            pos += 1;
        }
        proof {
            assert(self@.take(n - 1) =~= self@.take(self@.len() - 1));
        }
        s
    }
}

} // verus!
