//! UTF-16: a character below 0x10000 is one 16-bit code unit, any other is a
//! pair of surrogates that share the twenty bits of its value less 0x10000.

use vstd::prelude::*;

verus! {

/// True of the first code unit of a surrogate pair.
pub open spec fn is_high_surrogate(unit: u16) -> bool {
    0xD800 <= unit <= 0xDBFF
}

/// True of the second code unit of a surrogate pair.
pub open spec fn is_low_surrogate(unit: u16) -> bool {
    0xDC00 <= unit <= 0xDFFF
}

/// True where `units` begin with a surrogate pair.
pub open spec fn starts_with_pair(units: Seq<u16>) -> bool {
    units.len() >= 2 && is_high_surrogate(units[0]) && is_low_surrogate(units[1])
}

/// The value of the character that a surrogate pair stands for.
pub open spec fn scalar_of_pair(high: u16, low: u16) -> u32
    recommends
        is_high_surrogate(high),
        is_low_surrogate(low),
{
    (0x10000 + (high - 0xD800) * 0x400 + (low - 0xDC00)) as u32
}

/// The code units of one character.
pub open spec fn units_of_char(c: char) -> Seq<u16> {
    let scalar = c as u32;
    if scalar < 0x10000 {
        seq![scalar as u16]
    } else {
        seq![
            (0xD800 + (scalar - 0x10000) / 0x400) as u16,
            (0xDC00 + (scalar - 0x10000) % 0x400) as u16,
        ]
    }
}

/// The UTF-16 encoding of a sequence of characters.
pub open spec fn encode_utf16(chars: Seq<char>) -> Seq<u16>
    decreases chars.len(),
{
    if chars.len() == 0 {
        seq![]
    } else {
        units_of_char(chars[0]) + encode_utf16(chars.drop_first())
    }
}

/// True where `units` are the encoding of some sequence of characters: every
/// surrogate stands in a pair, the high one first.
pub open spec fn valid_utf16(units: Seq<u16>) -> bool
    decreases units.len(),
{
    if units.len() == 0 {
        true
    } else if starts_with_pair(units) {
        valid_utf16(units.skip(2))
    } else {
        !is_high_surrogate(units[0]) && !is_low_surrogate(units[0]) && valid_utf16(units.skip(1))
    }
}

/// The characters that `units` encode, where they are valid.
pub open spec fn decode_utf16(units: Seq<u16>) -> Seq<char>
    recommends
        valid_utf16(units),
    decreases units.len(),
{
    if units.len() == 0 {
        seq![]
    } else if starts_with_pair(units) {
        seq![scalar_of_pair(units[0], units[1]) as char] + decode_utf16(units.skip(2))
    } else {
        seq![units[0] as u32 as char] + decode_utf16(units.skip(1))
    }
}

/// `String::from_utf16`, taken on trust: it gives the text that the code
/// units encode, and an error exactly where they are not valid UTF-16, that
/// is where a surrogate has no partner.
pub assume_specification[ String::from_utf16 ](units: &[u16]) -> (text: Result<
    String,
    std::string::FromUtf16Error,
>)
    ensures
        text is Ok <==> valid_utf16(units@),
        text matches Ok(s) ==> s@ == decode_utf16(units@),
;

/// `str::encode_utf16`, taken on trust: it gives the UTF-16 code units of
/// the text, which are gathered here from its iterator in their order.
#[verifier::external_body]
pub(crate) fn utf16_units(text: &str) -> (units: Vec<u16>)
    ensures
        units@ == encode_utf16(text@),
{
    text.encode_utf16().collect()
}

/// What one character encodes to is valid and decodes to that character.
pub proof fn lemma_char_round_trip(c: char)
    ensures
        1 <= units_of_char(c).len() <= 2,
        units_of_char(c).len() == 2 <==> starts_with_pair(units_of_char(c)),
        units_of_char(c).len() == 1 ==> !is_high_surrogate(units_of_char(c)[0])
            && !is_low_surrogate(units_of_char(c)[0]) && units_of_char(c)[0] as u32 as char == c,
        units_of_char(c).len() == 2 ==> scalar_of_pair(units_of_char(c)[0], units_of_char(c)[1])
            as char == c,
        forall|i: int|
            0 <= i < units_of_char(c).len() ==> (#[trigger] units_of_char(c)[i] == 0 <==> c
                == '\0'),
{
    let scalar = c as u32;
    if scalar >= 0x10000 {
        let rest = (scalar - 0x10000) as int;
        assert(0 <= rest / 0x400 < 0x400);
        assert(rest == (rest / 0x400) * 0x400 + rest % 0x400);
    }
}

/// The encoding of any text is valid UTF-16 and decodes to the same text.
pub proof fn lemma_encode_decode(chars: Seq<char>)
    ensures
        valid_utf16(encode_utf16(chars)),
        decode_utf16(encode_utf16(chars)) == chars,
    decreases chars.len(),
{
    if chars.len() > 0 {
        let head = units_of_char(chars[0]);
        let tail = encode_utf16(chars.drop_first());
        let units = encode_utf16(chars);
        lemma_char_round_trip(chars[0]);
        lemma_encode_decode(chars.drop_first());
        assert(units == head + tail);
        if head.len() == 2 {
            assert(units[0] == head[0] && units[1] == head[1]);
            assert(units.skip(2) =~= tail);
        } else {
            assert(units[0] == head[0]);
            assert(units.skip(1) =~= tail);
        }
        assert(decode_utf16(units) =~= chars);
    }
}

/// The encoding of a text holds a zero code unit exactly where the text holds
/// the character of value zero.
pub proof fn lemma_zero_unit_is_zero_char(chars: Seq<char>)
    ensures
        encode_utf16(chars).contains(0u16) <==> chars.contains('\0'),
    decreases chars.len(),
{
    let units = encode_utf16(chars);
    if chars.len() > 0 {
        let head = units_of_char(chars[0]);
        let rest = chars.drop_first();
        let tail = encode_utf16(rest);
        lemma_char_round_trip(chars[0]);
        lemma_zero_unit_is_zero_char(rest);
        assert(units == head + tail);
        if units.contains(0u16) {
            let i = choose|i: int| 0 <= i < units.len() && units[i] == 0u16;
            if i < head.len() {
                assert(head[i] == 0u16);
                assert(chars[0] == '\0');
            } else {
                assert(tail[i - head.len()] == 0u16);
                assert(tail.contains(0u16));
                let j = choose|j: int| 0 <= j < rest.len() && rest[j] == '\0';
                assert(chars[j + 1] == '\0');
            }
        }
        if chars.contains('\0') {
            let j = choose|j: int| 0 <= j < chars.len() && chars[j] == '\0';
            if j == 0 {
                assert(head[0] == 0u16);
                assert(units[0] == 0u16);
            } else {
                assert(rest[j - 1] == '\0');
                assert(rest.contains('\0'));
                let i = choose|i: int| 0 <= i < tail.len() && tail[i] == 0u16;
                assert(units[head.len() + i] == 0u16);
            }
        }
    }
}

} // verus!
