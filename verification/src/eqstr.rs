//! Cross-encoding equality: "equal until the first null on either side".
//!
//! One stop-at-null zipped comparison over scalar values is the single
//! primitive.  Each view type implements the view-against-native direction,
//! and two explicit entry points give the mirrored native-against-view
//! direction through the same primitive, justified by the symmetry lemma.

use crate::cstr16::CStr16;
use crate::cstr8::CStr8;
use vstd::prelude::*;
use vstd::string::StrSliceExecFns;

verus! {

/// Equality of two scalar sequences up to the first null on either side:
/// walk both in step and stop at either end or at the first null scalar on
/// either side; equal when no mismatch was seen before stopping.
pub open spec fn eq_until_nul(a: Seq<u32>, b: Seq<u32>) -> bool
    decreases a.len(),
{
    if a.len() == 0 || b.len() == 0 {
        true
    } else if a[0] == 0 || b[0] == 0 {
        true
    } else if a[0] != b[0] {
        false
    } else {
        eq_until_nul(a.drop_first(), b.drop_first())
    }
}

/// The scalar values of a native string.
pub open spec fn str_scalars(s: Seq<char>) -> Seq<u32> {
    s.map(|i: int, c: char| c as u32)
}

/// Comparison up to the first null is symmetric in its two sides.
pub proof fn lemma_eq_until_nul_symmetric(a: Seq<u32>, b: Seq<u32>)
    ensures
        eq_until_nul(a, b) == eq_until_nul(b, a),
    decreases a.len(),
{
    if a.len() != 0 && b.len() != 0 && a[0] != 0 && b[0] != 0 && a[0] == b[0] {
        lemma_eq_until_nul_symmetric(a.drop_first(), b.drop_first());
    }
}

/// One comparison step: what remains after position `i` compares equal
/// exactly as the step at `i` and the remainder after `i + 1` dictate.
proof fn lemma_eq_until_nul_step(a: Seq<u32>, b: Seq<u32>, i: int)
    requires
        0 <= i < a.len(),
        i < b.len(),
    ensures
        eq_until_nul(a.skip(i), b.skip(i)) == (if a[i] == 0 || b[i] == 0 {
            true
        } else if a[i] != b[i] {
            false
        } else {
            eq_until_nul(a.skip(i + 1), b.skip(i + 1))
        }),
{
    assert(a.skip(i).len() > 0);
    assert(a.skip(i)[0] == a[i]);
    assert(b.skip(i)[0] == b[i]);
    assert(a.skip(i).drop_first() =~= a.skip(i + 1));
    assert(b.skip(i).drop_first() =~= b.skip(i + 1));
}

/// The shared zipped comparison, on raw 16-bit units against a native
/// string.
fn eq_units_str_until_nul(units: &[u16], other: &str) -> (r: bool)
    ensures
        r == eq_until_nul(
            units@.map(|i: int, u: u16| u as u32),
            str_scalars(other@),
        ),
{
    let ghost a = units@.map(|i: int, u: u16| u as u32);
    let ghost b = str_scalars(other@);
    let la = units.len();
    let lb = other.unicode_len();
    let mut i: usize = 0;
    proof {
        assert(a.skip(0) =~= a);
        assert(b.skip(0) =~= b);
    }
    loop
        invariant
            0 <= i <= la,
            i <= lb,
            la == a.len(),
            lb == b.len(),
            a == units@.map(|i: int, u: u16| u as u32),
            b == str_scalars(other@),
            eq_until_nul(a, b) == eq_until_nul(a.skip(i as int), b.skip(i as int)),
        decreases la - i,
    {
        if i >= la || i >= lb {
            proof {
                assert(a.skip(i as int).len() == 0 || b.skip(i as int).len() == 0);
            }
            return true;
        }
        let av: u32 = units[i] as u32;
        let bv: u32 = other.get_char(i) as u32;
        proof {
            assert(a[i as int] == av);
            assert(b[i as int] == bv);
            lemma_eq_until_nul_step(a, b, i as int);
        }
        if av == 0 || bv == 0 {
            return true;
        }
        if av != bv {
            return false;
        }
        i += 1;
    }
}

/// Comparison of a view against a native string up to the first null on
/// either side.  The view's own trailing null acts as its stop; content of
/// either side after a null is ignored.
pub trait EqStrUntilNul {
    /// The view's units as scalar values, the trailing null included.
    spec fn scalars_with_nul(&self) -> Seq<u32>;

    /// True when the view and the native string agree up to the first null
    /// on either side.
    fn eq_str_until_nul(&self, other: &str) -> (r: bool)
        ensures
            r == eq_until_nul(self.scalars_with_nul(), str_scalars(other@)),
    ;
}

impl<'a> EqStrUntilNul for CStr16<'a> {
    open spec fn scalars_with_nul(&self) -> Seq<u32> {
        self@.map(|i: int, u: u16| u as u32)
    }

    fn eq_str_until_nul(&self, other: &str) -> (r: bool) {
        eq_units_str_until_nul(self.to_u16_slice_with_nul(), other)
    }
}

impl<'a> EqStrUntilNul for CStr8<'a> {
    open spec fn scalars_with_nul(&self) -> Seq<u32> {
        self@.map(|i: int, u: u8| u as u32)
    }

    fn eq_str_until_nul(&self, other: &str) -> (r: bool) {
        let ghost a = self.scalars_with_nul();
        let ghost b = str_scalars(other@);
        let units = self.as_bytes();
        let la = units.len();
        let lb = other.unicode_len();
        let mut i: usize = 0;
        proof {
            assert(a.skip(0) =~= a);
            assert(b.skip(0) =~= b);
        }
        loop
            invariant
                0 <= i <= la,
                i <= lb,
                la == a.len(),
                lb == b.len(),
                a == self.scalars_with_nul(),
                b == str_scalars(other@),
                units@ == self@,
                eq_until_nul(a, b) == eq_until_nul(a.skip(i as int), b.skip(i as int)),
            decreases la - i,
        {
            if i >= la || i >= lb {
                proof {
                    assert(a.skip(i as int).len() == 0 || b.skip(i as int).len() == 0);
                }
                return true;
            }
            let av: u32 = units[i] as u32;
            let bv: u32 = other.get_char(i) as u32;
            proof {
                assert(a[i as int] == av);
                assert(b[i as int] == bv);
                lemma_eq_until_nul_step(a, b, i as int);
            }
            if av == 0 || bv == 0 {
                return true;
            }
            if av != bv {
                return false;
            }
            i += 1;
        }
    }
}

/// The mirrored direction for the 16-bit view, through the one primitive.
pub fn str_eq_until_nul_cstr16(s: &str, other: &CStr16<'_>) -> (r: bool)
    ensures
        r == eq_until_nul(str_scalars(s@), other.scalars_with_nul()),
{
    let r = other.eq_str_until_nul(s);
    proof {
        lemma_eq_until_nul_symmetric(other.scalars_with_nul(), str_scalars(s@));
    }
    r
}

/// The mirrored direction for the 8-bit view, through the one primitive.
pub fn str_eq_until_nul_cstr8(s: &str, other: &CStr8<'_>) -> (r: bool)
    ensures
        r == eq_until_nul(str_scalars(s@), other.scalars_with_nul()),
{
    let r = other.eq_str_until_nul(s);
    proof {
        lemma_eq_until_nul_symmetric(other.scalars_with_nul(), str_scalars(s@));
    }
    r
}

} // verus!
