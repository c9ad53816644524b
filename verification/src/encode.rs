//! UTF-8 output of a single character.
//!
//! File content is written to the terminal one code point at a time; this
//! module turns a character into the bytes that go out on the wire, proved
//! against vstd's UTF-8 encoding specification.

use vstd::prelude::*;
use vstd::utf8::{char_is_scalar, encode_scalar, has_width_1_encoding, has_width_2_encoding,
    has_width_3_encoding};

verus! {

/// The UTF-8 bytes of one character, exactly as `encode_scalar` defines them.
pub fn putchar(ch: char) -> (bytes: Vec<u8>)
    ensures
        bytes@ == encode_scalar(ch as u32),
{
    proof {
        char_is_scalar(ch);
    }
    let u = ch as u32;
    let mut bytes: Vec<u8> = Vec::new();
    if u <= 0x7F {
        proof {
            assert((u & 0x7F) as u8 == u as u8) by (bit_vector)
                requires
                    u <= 0x7F,
            ;
            assert(u & 0x7F <= 0x7F) by (bit_vector);
        }
        bytes.push((u & 0x7F) as u8);
        proof {
            assert(bytes@ =~= encode_scalar(ch as u32));
        }
    } else if u <= 0x7FF {
        proof {
            assert((u >> 6) & 0x1F <= 0x1F) by (bit_vector);
            assert(u & 0x3F <= 0x3F) by (bit_vector);
        }
        bytes.push(0xC0 | ((u >> 6) & 0x1F) as u8);
        bytes.push(0x80 | (u & 0x3F) as u8);
        proof {
            assert(bytes@ =~= encode_scalar(ch as u32));
        }
    } else if u <= 0xFFFF {
        proof {
            assert((u >> 12) & 0x0F <= 0x0F) by (bit_vector);
            assert((u >> 6) & 0x3F <= 0x3F) by (bit_vector);
            assert(u & 0x3F <= 0x3F) by (bit_vector);
        }
        bytes.push(0xE0 | ((u >> 12) & 0x0F) as u8);
        bytes.push(0x80 | ((u >> 6) & 0x3F) as u8);
        bytes.push(0x80 | (u & 0x3F) as u8);
        proof {
            assert(bytes@ =~= encode_scalar(ch as u32));
        }
    } else {
        proof {
            assert((u >> 18) & 0x7 <= 0x7) by (bit_vector);
            assert((u >> 12) & 0x3F <= 0x3F) by (bit_vector);
            assert((u >> 6) & 0x3F <= 0x3F) by (bit_vector);
            assert(u & 0x3F <= 0x3F) by (bit_vector);
        }
        bytes.push(0xF0 | ((u >> 18) & 0x7) as u8);
        bytes.push(0x80 | ((u >> 12) & 0x3F) as u8);
        bytes.push(0x80 | ((u >> 6) & 0x3F) as u8);
        bytes.push(0x80 | (u & 0x3F) as u8);
        proof {
            assert(bytes@ =~= encode_scalar(ch as u32));
        }
    }
    bytes
}

} // verus!
