//! UTF-8 as `vstd::utf8` defines it, and the decoding that the standard
//! library does.

use vstd::prelude::*;
use vstd::utf8::{
    char_is_scalar, char_u32_cast, decode_utf8, encode_scalar, encode_utf8, has_width_1_encoding,
    is_scalar, valid_utf8,
};

verus! {

/// `String::from_utf8`, taken on trust: it gives the text that the bytes
/// encode, and an error exactly where the bytes are not valid UTF-8.
pub assume_specification[ String::from_utf8 ](bytes: Vec<u8>) -> (text: Result<
    String,
    std::string::FromUtf8Error,
>)
    ensures
        text is Ok <==> valid_utf8(bytes@),
        text matches Ok(s) ==> s@ == decode_utf8(bytes@),
;

/// Among the bytes that one scalar value encodes to, a zero byte occurs only
/// as the single byte of the value zero.
pub proof fn lemma_scalar_zero_byte(scalar: u32)
    requires
        is_scalar(scalar),
    ensures
        forall|i: int|
            0 <= i < encode_scalar(scalar).len() ==> (#[trigger] encode_scalar(scalar)[i] == 0
                <==> scalar == 0),
{
    if has_width_1_encoding(scalar) {
        assert(((scalar & 0x7F) as u8 == 0) <==> scalar == 0) by (bit_vector)
            requires
                scalar <= 0x7F,
        ;
    } else {
        assert(0xC0 | ((scalar >> 6) & 0x1F) as u8 != 0) by (bit_vector);
        assert(0xE0 | ((scalar >> 12) & 0x0F) as u8 != 0) by (bit_vector);
        assert(0xF0 | ((scalar >> 18) & 0x7) as u8 != 0) by (bit_vector);
        assert(0x80 | (scalar & 0x3F) as u8 != 0) by (bit_vector);
        assert(0x80 | ((scalar >> 6) & 0x3F) as u8 != 0) by (bit_vector);
        assert(0x80 | ((scalar >> 12) & 0x3F) as u8 != 0) by (bit_vector);
    }
}

/// The encoding of a text holds a zero byte exactly where the text holds the
/// character of value zero.
pub proof fn lemma_zero_byte_is_zero_char(chars: Seq<char>)
    ensures
        encode_utf8(chars).contains(0u8) <==> chars.contains('\0'),
    decreases chars.len(),
{
    let bytes = encode_utf8(chars);
    if chars.len() > 0 {
        let head = encode_scalar(chars[0] as u32);
        let rest = chars.drop_first();
        let tail = encode_utf8(rest);
        char_is_scalar(chars[0]);
        lemma_scalar_zero_byte(chars[0] as u32);
        lemma_zero_byte_is_zero_char(rest);
        assert(bytes == head + tail);
        assert(head.len() >= 1);
        if bytes.contains(0u8) {
            let i = choose|i: int| 0 <= i < bytes.len() && bytes[i] == 0u8;
            if i < head.len() {
                assert(head[i] == 0u8);
                char_u32_cast(chars[0], 0u32);
                char_u32_cast('\0', 0u32);
            } else {
                assert(tail[i - head.len()] == 0u8);
                assert(tail.contains(0u8));
                let j = choose|j: int| 0 <= j < rest.len() && rest[j] == '\0';
                assert(chars[j + 1] == '\0');
            }
        }
        if chars.contains('\0') {
            let j = choose|j: int| 0 <= j < chars.len() && chars[j] == '\0';
            if j == 0 {
                assert(head[0] == 0u8);
                assert(bytes[0] == 0u8);
            } else {
                assert(rest[j - 1] == '\0');
                assert(rest.contains('\0'));
                let i = choose|i: int| 0 <= i < tail.len() && tail[i] == 0u8;
                assert(bytes[head.len() + i] == 0u8);
            }
        }
    }
}

} // verus!
