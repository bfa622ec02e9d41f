//! The mathematical model of UCS-2 code-unit sequences.
//!
//! A well-formed string is a sequence of 16-bit code units whose last unit is
//! the null unit and whose other units are neither null nor surrogate values.
//! This module also models the UTF-16 encoding of native text, which the
//! buffer-backed constructor uses, and proves the encode/decode round trip.

use vstd::prelude::*;

verus! {

/// UCS-2 excludes the UTF-16 surrogate range.
pub open spec fn is_surrogate(u: u16) -> bool {
    0xD800 <= u <= 0xDFFF
}

/// A unit at which a left-to-right validation scan stops: the null unit or an
/// invalid (surrogate) unit.
pub open spec fn is_special(u: u16) -> bool {
    u == 0 || is_surrogate(u)
}

/// Index of the first unit that is null or invalid; `s.len()` when every unit
/// is an ordinary character unit.
pub open spec fn first_special(s: Seq<u16>) -> int
    decreases s.len(),
{
    if s.len() == 0 {
        0
    } else if is_special(s[0]) {
        0
    } else {
        1 + first_special(s.drop_first())
    }
}

/// Index of the first null unit; `s.len()` when there is none.
pub open spec fn first_nul(s: Seq<u16>) -> int
    decreases s.len(),
{
    if s.len() == 0 {
        0
    } else if s[0] == 0 {
        0
    } else {
        1 + first_nul(s.drop_first())
    }
}

/// The invariant of every null-terminated view: at least the terminator, the
/// last unit null, and no other unit null or surrogate.
pub open spec fn wf_units(s: Seq<u16>) -> bool {
    &&& s.len() >= 1
    &&& s.last() == 0
    &&& forall|i: int| 0 <= i < s.len() - 1 ==> !is_special(s[i])
}

pub proof fn lemma_first_special_bounds(s: Seq<u16>)
    ensures
        0 <= first_special(s) <= s.len(),
        forall|j: int| 0 <= j < first_special(s) ==> !is_special(s[j]),
        first_special(s) < s.len() ==> is_special(s[first_special(s)]),
    decreases s.len(),
{
    if s.len() != 0 && !is_special(s[0]) {
        lemma_first_special_bounds(s.drop_first());
        assert forall|j: int| 0 <= j < first_special(s) implies !is_special(s[j]) by {
            if j >= 1 {
                assert(s[j] == s.drop_first()[j - 1]);
            }
        }
    }
}

/// The scan position is determined by what the prefix looks like.
pub proof fn lemma_first_special_at(s: Seq<u16>, i: int)
    requires
        0 <= i <= s.len(),
        forall|j: int| 0 <= j < i ==> !is_special(s[j]),
        i < s.len() ==> is_special(s[i]),
    ensures
        first_special(s) == i,
    decreases s.len(),
{
    if s.len() != 0 && !is_special(s[0]) {
        assert(forall|j: int| 0 <= j < i - 1 ==> s.drop_first()[j] == s[j + 1]);
        lemma_first_special_at(s.drop_first(), i - 1);
    }
}

pub proof fn lemma_first_nul_at(s: Seq<u16>, i: int)
    requires
        0 <= i <= s.len(),
        forall|j: int| 0 <= j < i ==> s[j] != 0,
        i < s.len() ==> s[i] == 0,
    ensures
        first_nul(s) == i,
    decreases s.len(),
{
    if s.len() != 0 && s[0] != 0 {
        assert(forall|j: int| 0 <= j < i - 1 ==> s.drop_first()[j] == s[j + 1]);
        lemma_first_nul_at(s.drop_first(), i - 1);
    }
}

/// Appending units after an already-found stop position does not move it.
/// This is the general shape behind truncation idempotence: a scan that
/// stops at a null ignores everything that follows, so extending the input
/// leaves both the stop position and the truncated view unchanged.
pub proof fn lemma_first_special_extend(s: Seq<u16>, t: Seq<u16>)
    requires
        first_special(s) < s.len(),
    ensures
        first_special(s + t) == first_special(s),
    decreases s.len(),
{
    lemma_first_special_bounds(s);
    let k = first_special(s);
    assert(forall|j: int| 0 <= j < k ==> (s + t)[j] == s[j]);
    lemma_first_special_at(s + t, k);
}

/// Truncation idempotence of until-null construction: once a scan has
/// found its null, anything appended after the input is ignored — the stop
/// position, the unit found there and the truncated view are all exactly
/// those of the unextended input.  This is the outcome
/// `CStr16::from_u16_until_nul` states over `first_special`.
pub proof fn lemma_until_nul_truncation(s: Seq<u16>, t: Seq<u16>)
    requires
        first_special(s) < s.len(),
        s[first_special(s)] == 0,
    ensures
        first_special(s + t) == first_special(s),
        (s + t)[first_special(s)] == 0,
        (s + t).take(first_special(s) + 1) == s.take(first_special(s) + 1),
{
    lemma_first_special_bounds(s);
    lemma_first_special_extend(s, t);
    assert((s + t)[first_special(s)] == s[first_special(s)]);
    assert((s + t).take(first_special(s) + 1) =~= s.take(first_special(s) + 1));
}

/// The UTF-16 encoding of one native character: one unit for a scalar below
/// 0x10000, a surrogate pair for the rest.
pub open spec fn utf16_units_of(c: char) -> Seq<u16> {
    let v = c as u32;
    if v < 0x10000 {
        seq![v as u16]
    } else {
        seq![
            (0xD800 + (v - 0x10000) / 0x400) as u16,
            (0xDC00 + (v - 0x10000) % 0x400) as u16,
        ]
    }
}

/// The UTF-16 encoding of a native character sequence.
pub open spec fn utf16_encode(chars: Seq<char>) -> Seq<u16>
    decreases chars.len(),
{
    if chars.len() == 0 {
        seq![]
    } else {
        utf16_units_of(chars[0]) + utf16_encode(chars.drop_first())
    }
}

/// Each unit read back as a native character.  This is only meaningful for
/// unit sequences free of surrogate values, which is what every validated
/// view contains.
pub open spec fn decode_units(s: Seq<u16>) -> Seq<char> {
    s.map(|i: int, u: u16| (u as u32) as char)
}

pub proof fn lemma_utf16_encode_push(chars: Seq<char>, c: char)
    ensures
        utf16_encode(chars.push(c)) == utf16_encode(chars) + utf16_units_of(c),
    decreases chars.len(),
{
    if chars.len() == 0 {
        assert(chars.push(c)[0] == c);
        assert(chars.push(c).drop_first() =~= chars);
        assert(utf16_encode(chars.push(c)) =~= utf16_encode(chars) + utf16_units_of(c));
    } else {
        assert(chars.push(c)[0] == chars[0]);
        assert(chars.push(c).drop_first() =~= chars.drop_first().push(c));
        lemma_utf16_encode_push(chars.drop_first(), c);
        assert(utf16_encode(chars.push(c)) =~= utf16_encode(chars) + utf16_units_of(c));
    }
}

/// The encoding of a sequence splits at any character position.
pub proof fn lemma_utf16_encode_split(chars: Seq<char>, i: int)
    requires
        0 <= i <= chars.len(),
    ensures
        utf16_encode(chars) == utf16_encode(chars.take(i)) + utf16_encode(chars.skip(i)),
    decreases i,
{
    if i == 0 {
        assert(chars.take(0) =~= Seq::<char>::empty());
        assert(chars.skip(0) =~= chars);
        assert(utf16_encode(chars) =~= utf16_encode(chars.take(0)) + utf16_encode(chars.skip(0)));
    } else {
        lemma_utf16_encode_split(chars, i - 1);
        lemma_utf16_encode_push(chars.take(i - 1), chars[i - 1]);
        assert(chars.take(i - 1).push(chars[i - 1]) =~= chars.take(i));
        assert(chars.skip(i - 1)[0] == chars[i - 1]);
        assert(chars.skip(i - 1).drop_first() =~= chars.skip(i));
        assert(utf16_encode(chars.skip(i - 1)) == utf16_units_of(chars[i - 1]) + utf16_encode(
            chars.skip(i),
        ));
        assert(utf16_encode(chars) =~= utf16_encode(chars.take(i)) + utf16_encode(chars.skip(i)));
    }
}

/// Every character contributes at least one unit.
pub proof fn lemma_utf16_encode_len(chars: Seq<char>)
    ensures
        utf16_encode(chars).len() >= chars.len(),
    decreases chars.len(),
{
    if chars.len() > 0 {
        lemma_utf16_encode_len(chars.drop_first());
    }
}

/// Round trip: a native string whose characters all lie below 0x10000 (and so
/// encode as single units) is reproduced exactly by encoding to UTF-16 and
/// reading each unit back as a character.  The null-freedom hypothesis is not
/// needed for the equality itself, only single-unit encodability is.
pub proof fn lemma_utf16_round_trip(chars: Seq<char>)
    requires
        forall|i: int| 0 <= i < chars.len() ==> (#[trigger] chars[i] as u32) < 0x10000,
    ensures
        utf16_encode(chars).len() == chars.len(),
        decode_units(utf16_encode(chars)) == chars,
    decreases chars.len(),
{
    if chars.len() == 0 {
        assert(decode_units(utf16_encode(chars)) =~= chars);
    } else {
        let c = chars[0];
        let v = c as u32;
        let rest = chars.drop_first();
        assert(v < 0x10000);
        lemma_utf16_round_trip(rest);
        let e = utf16_encode(chars);
        assert(e =~= seq![v as u16] + utf16_encode(rest));
        assert((v as u16) as u32 == v);
        vstd::utf8::char_u32_cast(c, v);
        assert forall|i: int| 0 <= i < chars.len() implies decode_units(e)[i] == chars[i] by {
            if i == 0 {
                assert(e[0] == v as u16);
            } else {
                assert(e[i] == utf16_encode(rest)[i - 1]);
                assert(decode_units(utf16_encode(rest))[i - 1] == rest[i - 1]);
            }
        }
        assert(decode_units(e) =~= chars);
    }
}

/// A sequence of characters below 0x10000 encodes unit for character.
pub proof fn lemma_utf16_encode_bmp(chars: Seq<char>)
    requires
        forall|i: int| 0 <= i < chars.len() ==> (#[trigger] chars[i] as u32) < 0x10000,
    ensures
        utf16_encode(chars) == chars.map(|i: int, c: char| (c as u32) as u16),
    decreases chars.len(),
{
    let m = chars.map(|i: int, c: char| (c as u32) as u16);
    if chars.len() == 0 {
        assert(utf16_encode(chars) =~= m);
    } else {
        lemma_utf16_encode_bmp(chars.drop_first());
        assert(utf16_encode(chars) =~= m) by {
            assert(chars.drop_first().map(|i: int, c: char| (c as u32) as u16) =~= m.drop_first());
        }
    }
}

/// Round trip through the library's two halves of the bridge: a native
/// string with no null character and only characters encodable as single
/// units is encoded by `CStr16::from_str_with_buf` into a view whose units
/// pass validation — so, capacity permitting, construction succeeds — and
/// `CStr16::to_string` of that view reproduces the string exactly.  Both
/// conclusions are stated over the spec functions those contracts use.
pub proof fn lemma_native_round_trip(chars: Seq<char>)
    requires
        forall|i: int| 0 <= i < chars.len() ==> chars[i] != '\0',
        forall|i: int| 0 <= i < chars.len() ==> (#[trigger] chars[i] as u32) < 0x10000,
    ensures
        first_special(utf16_encode(chars)) == utf16_encode(chars).len(),
        wf_units(utf16_encode(chars).push(0u16)),
        decode_units(utf16_encode(chars).push(0u16).take(utf16_encode(chars).len() as int))
            == chars,
{
    let units = utf16_encode(chars);
    lemma_utf16_round_trip(chars);
    lemma_utf16_encode_bmp(chars);
    assert forall|j: int| 0 <= j < units.len() implies !is_special(units[j]) by {
        let c = chars[j];
        vstd::utf8::char_is_scalar(c);
        assert(units[j] == (c as u32) as u16);
        assert(c as u32 != 0) by {
            vstd::utf8::char_u32_cast(c, c as u32);
        }
    }
    lemma_first_special_at(units, units.len() as int);
    assert(units.push(0u16).take(units.len() as int) =~= units);
}

/// The unit sequence seen as raw little-endian bytes.
pub open spec fn units_le_bytes(s: Seq<u16>) -> Seq<u8> {
    Seq::new(
        2 * s.len(),
        |i: int|
            if i % 2 == 0 {
                (s[i / 2] % 256) as u8
            } else {
                (s[i / 2] / 256) as u8
            },
    )
}

} // verus!
