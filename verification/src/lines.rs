//! Newline counting.
//!
//! The number column is sized from the total count of newline bytes in the
//! loaded text. The count itself is delegated to the `bytecount` crate; the
//! bridge from the byte-level count to the character-level count is proved
//! here over vstd's UTF-8 encoding.

use vstd::prelude::*;
use vstd::utf8::{char_is_scalar, encode_scalar, encode_utf8, has_width_1_encoding,
    has_width_2_encoding, has_width_3_encoding};

verus! {

/// How many times `c` occurs in `s`.
pub open spec fn count_char(s: Seq<char>, c: char) -> nat
    decreases s.len(),
{
    if s.len() == 0 {
        0
    } else {
        count_char(s.drop_first(), c) + if s[0] == c {
            1nat
        } else {
            0nat
        }
    }
}

/// How many times `b` occurs in `s`.
pub open spec fn count_byte(s: Seq<u8>, b: u8) -> nat
    decreases s.len(),
{
    if s.len() == 0 {
        0
    } else {
        count_byte(s.drop_first(), b) + if s[0] == b {
            1nat
        } else {
            0nat
        }
    }
}

proof fn lemma_count_byte_concat(a: Seq<u8>, b: Seq<u8>, x: u8)
    ensures
        count_byte(a + b, x) == count_byte(a, x) + count_byte(b, x),
    decreases a.len(),
{
    if a.len() == 0 {
        assert(a + b =~= b);
    } else {
        assert((a + b).drop_first() =~= a.drop_first() + b);
        lemma_count_byte_concat(a.drop_first(), b, x);
    }
}

/// One encoded character contains the newline byte exactly when it is the
/// newline character: the single-byte encodings keep their scalar value, and
/// every byte of a multi-byte encoding is at least 0x80.
proof fn lemma_encode_scalar_newline(c: char)
    ensures
        count_byte(encode_scalar(c as u32), 10) == if c == '\n' {
            1nat
        } else {
            0nat
        },
{
    reveal_with_fuel(count_byte, 6);
    char_is_scalar(c);
    let u = c as u32;
    if has_width_1_encoding(u) {
        assert(((u & 0x7F) as u8 == 10) <==> u == 10) by (bit_vector)
            requires
                u <= 0x7F,
        ;
        assert(encode_scalar(u).drop_first() =~= Seq::<u8>::empty());
        assert(u == 10 <==> c == '\n') by {
            assert('\n' as u32 == 10);
            vstd::utf8::char_u32_cast(c, u);
            vstd::utf8::char_u32_cast('\n', 10);
        }
    } else {
        assert(u >= 0x80);
        assert(c != '\n') by {
            vstd::utf8::char_u32_cast(c, u);
        }
        assert((0xC0 | ((u >> 6) & 0x1F) as u8) != 10) by (bit_vector);
        assert((0xE0 | ((u >> 12) & 0x0F) as u8) != 10) by (bit_vector);
        assert((0xF0 | ((u >> 18) & 0x7) as u8) != 10) by (bit_vector);
        assert((0x80 | (u & 0x3F) as u8) != 10) by (bit_vector);
        assert((0x80 | ((u >> 6) & 0x3F) as u8) != 10) by (bit_vector);
        assert((0x80 | ((u >> 12) & 0x3F) as u8) != 10) by (bit_vector);
        if has_width_2_encoding(u) {
            assert(encode_scalar(u).drop_first().drop_first() =~= Seq::<u8>::empty());
        } else if has_width_3_encoding(u) {
            assert(encode_scalar(u).drop_first().drop_first().drop_first() =~= Seq::<
                u8,
            >::empty());
        } else {
            assert(encode_scalar(u).drop_first().drop_first().drop_first().drop_first() =~= Seq::<
                u8,
            >::empty());
        }
    }
}

/// The newline bytes of a UTF-8 encoded text are exactly its newline
/// characters: no multi-byte encoding contains the byte 0x0A.
pub proof fn lemma_newline_bytes(chars: Seq<char>)
    ensures
        count_byte(encode_utf8(chars), 10) == count_char(chars, '\n'),
    decreases chars.len(),
{
    if chars.len() > 0 {
        lemma_count_byte_concat(
            encode_scalar(chars[0] as u32),
            encode_utf8(chars.drop_first()),
            10,
        );
        lemma_encode_scalar_newline(chars[0]);
        lemma_newline_bytes(chars.drop_first());
    }
}

/// Relies on `bytecount::count`: it returns the number of occurrences of
/// `needle` in `haystack`.
#[verifier::external_body]
fn byte_count(haystack: &[u8], needle: u8) -> (r: usize)
    ensures
        r == count_byte(haystack@, needle),
{
    bytecount::count(haystack, needle)
}

/// Counts the newline bytes of `s`, which equal its newline characters.
pub fn count_newlines(s: &str) -> (r: usize)
    ensures
        r == count_char(s@, '\n'),
{
    let bytes = s.as_bytes();
    let r = byte_count(bytes, 10);
    proof {
        lemma_newline_bytes(s@);
    }
    r
}

} // verus!
