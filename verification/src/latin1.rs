//! The constant-style Latin-1 transcoder.
//!
//! A pure, allocation-free walk of a native string's UTF-8 bytes, one
//! scalar at a time: 1-byte sequences map directly, 2-byte sequences are
//! reconstructed from their (5+6)-bit parts and must resolve to a value at
//! most 0xFF, and longer sequences cannot encode Latin-1 at all.  A
//! counting pass and an encoding pass walk the same way and are proved to
//! agree exactly.

use crate::cstr8::latin1_decode;
use vstd::prelude::*;
use vstd::string::StrSliceExecFns;
use vstd::utf8::{encode_scalar, encode_utf8};

verus! {

/// True when every character fits in one Latin-1 byte.
pub open spec fn latin1_encodable(chars: Seq<char>) -> bool {
    forall|i: int| 0 <= i < chars.len() ==> (#[trigger] chars[i] as u32) <= 0xFF
}

/// True when no character is the null scalar.
pub open spec fn nul_free(chars: Seq<char>) -> bool {
    forall|i: int| 0 <= i < chars.len() ==> (#[trigger] chars[i] as u32) != 0
}

/// The Latin-1 byte of each character.
pub open spec fn latin1_of(chars: Seq<char>) -> Seq<u8> {
    chars.map(|i: int, c: char| (c as u32) as u8)
}

proof fn lemma_encode_utf8_push(chars: Seq<char>, c: char)
    ensures
        encode_utf8(chars.push(c)) == encode_utf8(chars) + encode_scalar(c as u32),
    decreases chars.len(),
{
    if chars.len() == 0 {
        assert(chars.push(c)[0] == c);
        assert(chars.push(c).drop_first() =~= chars);
        assert(encode_utf8(chars.push(c)) =~= encode_utf8(chars) + encode_scalar(c as u32));
    } else {
        assert(chars.push(c)[0] == chars[0]);
        assert(chars.push(c).drop_first() =~= chars.drop_first().push(c));
        lemma_encode_utf8_push(chars.drop_first(), c);
        assert(encode_utf8(chars.push(c)) =~= encode_utf8(chars) + encode_scalar(c as u32));
    }
}

proof fn lemma_encode_utf8_split(chars: Seq<char>, i: int)
    requires
        0 <= i <= chars.len(),
    ensures
        encode_utf8(chars) == encode_utf8(chars.take(i)) + encode_utf8(chars.skip(i)),
    decreases i,
{
    if i == 0 {
        assert(chars.take(0) =~= Seq::<char>::empty());
        assert(chars.skip(0) =~= chars);
        assert(encode_utf8(chars) =~= encode_utf8(chars.take(0)) + encode_utf8(chars.skip(0)));
    } else {
        lemma_encode_utf8_split(chars, i - 1);
        lemma_encode_utf8_push(chars.take(i - 1), chars[i - 1]);
        assert(chars.take(i - 1).push(chars[i - 1]) =~= chars.take(i));
        assert(chars.skip(i - 1)[0] == chars[i - 1]);
        assert(chars.skip(i - 1).drop_first() =~= chars.skip(i));
        assert(encode_utf8(chars.skip(i - 1)) == encode_scalar(chars[i - 1] as u32) + encode_utf8(
            chars.skip(i),
        ));
        assert(encode_utf8(chars) =~= encode_utf8(chars.take(i)) + encode_utf8(chars.skip(i)));
    }
}

/// Reads one Latin-1 character from a UTF-8 byte sequence at the given
/// offset, returning the character and the width of its encoding there.
/// The bytes at the offset must encode a scalar that fits in one Latin-1
/// byte.
fn latin1_from_utf8_at_offset(bytes: &[u8], offset: usize, Ghost(v): Ghost<u32>) -> (r: (u8, usize))
    requires
        v <= 0xFF,
        offset + encode_scalar(v).len() <= bytes@.len(),
        bytes@.subrange(offset as int, offset + encode_scalar(v).len() as int) == encode_scalar(v),
    ensures
        r.0 == v as u8,
        1 <= r.1 == encode_scalar(v).len(),
        offset + r.1 <= bytes@.len(),
{
    let b0 = bytes[offset];
    proof {
        assert(b0 == encode_scalar(v)[0]);
    }
    if b0 & 0b1000_0000 == 0b0000_0000 {
        proof {
            if v > 0x7F {
                assert(((0xC0u8 | (((v >> 6) & 0x1F) as u8)) & 0b1000_0000u8) != 0)
                    by (bit_vector);
            }
            assert((v <= 0x7F) ==> ((v & 0x7F) as u8) == (v as u8)) by (bit_vector);
        }
        (b0, 1)
    } else {
        proof {
            if v <= 0x7F {
                assert((((v & 0x7F) as u8) & 0b1000_0000u8) == 0) by (bit_vector);
            }
        }
        let b1 = bytes[offset + 1];
        proof {
            assert(b1 == encode_scalar(v)[1]);
        }
        let a = (b0 & 0b0001_1111) as u16;
        let b = (b1 & 0b0011_1111) as u16;
        let ch = (a << 6) | b;
        proof {
            assert((0x80 <= v && v <= 0xFF) ==> (((((0xC0u8 | (((v >> 6) & 0x1F) as u8))
                & 0b0001_1111u8) as u16) << 6) | (((0x80u8 | ((v & 0x3F) as u8))
                & 0b0011_1111u8) as u16)) == (v as u16)) by (bit_vector);
            assert((0x80 <= v && v <= 0xFF) ==> ((v as u16) as u8) == (v as u8)) by (bit_vector);
        }
        ((ch as u8), 2)
    }
}

/// The number of Latin-1 characters a native string holds: its character
/// count, found by walking its UTF-8 bytes one scalar at a time.  Every
/// character must fit in one Latin-1 byte.
pub fn str_num_latin1_chars(s: &str) -> (n: usize)
    requires
        latin1_encodable(s@),
    ensures
        n == s@.len(),
{
    let ghost chars = s@;
    let bytes = s.as_bytes();
    let blen = bytes.len();
    let mut offset: usize = 0;
    let mut num: usize = 0;
    while offset < blen
        invariant
            latin1_encodable(chars),
            chars == s@,
            bytes@ == encode_utf8(chars),
            blen == bytes@.len(),
            0 <= num <= chars.len(),
            num <= offset,
            offset == encode_utf8(chars.take(num as int)).len(),
        decreases blen - offset,
    {
        proof {
            lemma_encode_utf8_split(chars, num as int);
            if num == chars.len() {
                assert(chars.skip(num as int) =~= Seq::<char>::empty());
                assert(false);
            }
        }
        let ghost c = chars[num as int];
        let ghost v = c as u32;
        proof {
            assert(chars.skip(num as int)[0] == c);
            assert(chars.skip(num as int).drop_first() =~= chars.skip(num as int + 1));
            assert(encode_utf8(chars.skip(num as int)) == encode_scalar(v) + encode_utf8(
                chars.skip(num as int + 1),
            ));
            assert(bytes@.subrange(offset as int, offset + encode_scalar(v).len() as int)
                =~= encode_scalar(v));
            lemma_encode_utf8_push(chars.take(num as int), c);
            assert(chars.take(num as int).push(c) =~= chars.take(num as int + 1));
        }
        let (_, width) = latin1_from_utf8_at_offset(bytes, offset, Ghost(v));
        offset += width;
        num += 1;
    }
    proof {
        lemma_encode_utf8_split(chars, num as int);
        if num < chars.len() {
            assert(chars.skip(num as int).len() > 0);
            assert(encode_utf8(chars.skip(num as int)).len() >= encode_scalar(
                chars.skip(num as int)[0] as u32,
            ).len());
            assert(false);
        }
    }
    num
}

/// Encodes a native string as a null-terminated Latin-1 byte sequence of
/// exactly the declared size, which must be the character count plus one
/// for the trailing null.  Every character must fit in one Latin-1 byte
/// and none may be null.
pub fn str_to_latin1(s: &str, n: usize) -> (out: Vec<u8>)
    requires
        latin1_encodable(s@),
        nul_free(s@),
        n == s@.len() + 1,
    ensures
        out@ == latin1_of(s@).push(0u8),
        out@.len() == n,
{
    let ghost chars = s@;
    let bytes = s.as_bytes();
    let blen = bytes.len();
    let mut out: Vec<u8> = Vec::new();
    let mut offset: usize = 0;
    let mut num: usize = 0;
    while offset < blen
        invariant
            latin1_encodable(chars),
            chars == s@,
            bytes@ == encode_utf8(chars),
            blen == bytes@.len(),
            0 <= num <= chars.len(),
            num <= offset,
            offset == encode_utf8(chars.take(num as int)).len(),
            out@ == latin1_of(chars.take(num as int)),
            out@.len() == num,
        decreases blen - offset,
    {
        proof {
            lemma_encode_utf8_split(chars, num as int);
            if num == chars.len() {
                assert(chars.skip(num as int) =~= Seq::<char>::empty());
                assert(false);
            }
        }
        let ghost c = chars[num as int];
        let ghost v = c as u32;
        proof {
            assert(chars.skip(num as int)[0] == c);
            assert(chars.skip(num as int).drop_first() =~= chars.skip(num as int + 1));
            assert(encode_utf8(chars.skip(num as int)) == encode_scalar(v) + encode_utf8(
                chars.skip(num as int + 1),
            ));
            assert(bytes@.subrange(offset as int, offset + encode_scalar(v).len() as int)
                =~= encode_scalar(v));
            lemma_encode_utf8_push(chars.take(num as int), c);
            assert(chars.take(num as int).push(c) =~= chars.take(num as int + 1));
        }
        let (ch, width) = latin1_from_utf8_at_offset(bytes, offset, Ghost(v));
        out.push(ch);
        proof {
            assert(out@ =~= latin1_of(chars.take(num as int + 1)));
        }
        offset += width;
        num += 1;
    }
    proof {
        lemma_encode_utf8_split(chars, num as int);
        if num < chars.len() {
            assert(chars.skip(num as int).len() > 0);
            assert(encode_utf8(chars.skip(num as int)).len() >= encode_scalar(
                chars.skip(num as int)[0] as u32,
            ).len());
            assert(false);
        }
        assert(chars.take(num as int) =~= chars);
    }
    out.push(0);
    out
}

/// Reports whether a native string satisfies what the encoding pass
/// demands: every character fits in one Latin-1 byte and none is null.
pub fn str_is_latin1_encodable(s: &str) -> (r: bool)
    ensures
        r == (latin1_encodable(s@) && nul_free(s@)),
{
    let n = s.unicode_len();
    let mut i: usize = 0;
    while i < n
        invariant
            0 <= i <= n,
            n == s@.len(),
            forall|j: int| 0 <= j < i ==> 0 < (#[trigger] s@[j] as u32) <= 0xFF,
        decreases n - i,
    {
        let v: u32 = s.get_char(i) as u32;
        if v == 0 || v > 0xFF {
            return false;
        }
        i += 1;
    }
    true
}

/// Round trip for the 8-bit side: a null-free native string of Latin-1
/// characters is reproduced exactly by encoding each character to its byte
/// and reading each byte back as a character.
pub proof fn lemma_latin1_round_trip(chars: Seq<char>)
    requires
        latin1_encodable(chars),
    ensures
        latin1_decode(latin1_of(chars)) == chars,
{
    assert forall|i: int| 0 <= i < chars.len() implies latin1_decode(latin1_of(chars))[i]
        == chars[i] by {
        let c = chars[i];
        let v = c as u32;
        assert((v as u8) as u32 == v);
        vstd::utf8::char_u32_cast(c, v);
    }
    assert(latin1_decode(latin1_of(chars)) =~= chars);
}

} // verus!
