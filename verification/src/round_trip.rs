//! What holds between the bytes that the writer appends and what the reader
//! finds in them.

use vstd::prelude::*;
use vstd::utf8::{encode_utf8, encode_utf8_decode_utf8, encode_utf8_valid_utf8};
use crate::byte_order::{bytes_of_units, lemma_unit_round_trip, lemma_units_round_trip, ByteOrder};
use crate::layout::{
    lemma_first_zero_byte, lemma_first_zero_unit, lemma_zero_byte_is_first,
    lemma_zero_unit_is_first, utf16_fixed, utf16_fixed_reading, utf16_terminated,
    utf16_terminated_reading, utf8_fixed, utf8_fixed_reading, utf8_terminated,
    utf8_terminated_reading, zero_unit_at, Reading,
};
use crate::numbers::{
    bytes_of_u16, bytes_of_u32, bytes_of_u64, lemma_u16_bytes_round_trip,
    lemma_u32_bytes_round_trip, lemma_u64_bytes_round_trip, u16_of_bytes, u32_of_bytes,
    u64_of_bytes,
};
use crate::utf16::{encode_utf16, lemma_encode_decode};
use crate::Failure;

verus! {

/// A 16-bit number that was written after `before` is read back from the
/// position at which it was written, whatever is written after it.
pub proof fn lemma_u16_round_trip(before: Seq<u8>, value: u16, after: Seq<u8>)
    ensures
        u16_of_bytes(
            (before + bytes_of_u16(value) + after).subrange(
                before.len() as int,
                before.len() as int + 2,
            ),
        ) == value,
{
    let data = before + bytes_of_u16(value) + after;
    lemma_u16_bytes_round_trip(value);
    assert(data.subrange(before.len() as int, before.len() as int + 2) =~= bytes_of_u16(value));
}

/// A 32-bit number that was written after `before` is read back from the
/// position at which it was written, whatever is written after it.
pub proof fn lemma_u32_round_trip(before: Seq<u8>, value: u32, after: Seq<u8>)
    ensures
        u32_of_bytes(
            (before + bytes_of_u32(value) + after).subrange(
                before.len() as int,
                before.len() as int + 4,
            ),
        ) == value,
{
    let data = before + bytes_of_u32(value) + after;
    lemma_u32_bytes_round_trip(value);
    assert(data.subrange(before.len() as int, before.len() as int + 4) =~= bytes_of_u32(value));
}

/// A 64-bit number that was written after `before` is read back from the
/// position at which it was written, whatever is written after it.
pub proof fn lemma_u64_round_trip(before: Seq<u8>, value: u64, after: Seq<u8>)
    ensures
        u64_of_bytes(
            (before + bytes_of_u64(value) + after).subrange(
                before.len() as int,
                before.len() as int + 8,
            ),
        ) == value,
{
    let data = before + bytes_of_u64(value) + after;
    lemma_u64_bytes_round_trip(value);
    assert(data.subrange(before.len() as int, before.len() as int + 8) =~= bytes_of_u64(value));
}

/// A narrow text whose encoding holds no zero byte, written with a
/// terminator after `before`, is read back exactly from the position at
/// which it was written, and the cursor then stands behind its terminator,
/// whatever is written after it.
pub proof fn lemma_utf8_terminated_round_trip(before: Seq<u8>, chars: Seq<char>, after: Seq<u8>)
    requires
        !encode_utf8(chars).contains(0u8),
    ensures
        utf8_terminated(chars) == encode_utf8(chars).push(0u8),
        utf8_terminated_reading(before + utf8_terminated(chars) + after, before.len() as int) == (
        Reading { text: Ok(chars), cursor: (before.len() + utf8_terminated(chars).len()) as int }),
{
    let bytes = encode_utf8(chars);
    let data = before + utf8_terminated(chars) + after;
    let from = before.len() as int;
    let end = from + bytes.len();
    if bytes.len() > 0 {
        assert(bytes.contains(bytes[bytes.len() - 1]));
    }
    assert(data[end] == bytes.push(0u8)[bytes.len() as int]);
    assert forall|j: int| from <= j < end implies data[j] != 0 by {
        assert(data[j] == bytes[j - from]);
        assert(bytes.contains(bytes[j - from]));
    }
    lemma_zero_byte_is_first(data, from, end);
    assert(data.subrange(from, end) =~= bytes);
    encode_utf8_valid_utf8(chars);
    encode_utf8_decode_utf8(chars);
}

/// Two narrow texts whose encodings hold no zero byte, written with
/// terminators one after the other, are read back in their order, the second
/// from where the read of the first left the cursor.
pub proof fn lemma_utf8_terminated_sequence(
    before: Seq<u8>,
    first: Seq<char>,
    second: Seq<char>,
    after: Seq<u8>,
)
    requires
        !encode_utf8(first).contains(0u8),
        !encode_utf8(second).contains(0u8),
    ensures
        ({
            let data = before + utf8_terminated(first) + utf8_terminated(second) + after;
            let one = utf8_terminated_reading(data, before.len() as int);
            let two = utf8_terminated_reading(data, one.cursor);
            &&& one.text == Ok::<Seq<char>, Failure>(first)
            &&& one.cursor == before.len() + utf8_terminated(first).len()
            &&& two.text == Ok::<Seq<char>, Failure>(second)
            &&& two.cursor == one.cursor + utf8_terminated(second).len()
        }),
{
    let data = before + utf8_terminated(first) + utf8_terminated(second) + after;
    lemma_utf8_terminated_round_trip(before, first, utf8_terminated(second) + after);
    assert(data =~= before + utf8_terminated(first) + (utf8_terminated(second) + after));
    lemma_utf8_terminated_round_trip(before + utf8_terminated(first), second, after);
}

/// A read of a narrow text with a terminator from bytes that hold no zero
/// byte from the cursor on fails as unterminated and leaves the cursor.
pub proof fn lemma_utf8_unterminated(data: Seq<u8>, from: int)
    requires
        0 <= from,
        forall|j: int| from <= j < data.len() ==> data[j] != 0,
    ensures
        utf8_terminated_reading(data, from) == (Reading {
            text: Err(Failure::Unterminated),
            cursor: from,
        }),
{
    lemma_first_zero_byte(data, from);
}

/// A narrow text whose encoding does not end in a zero byte is written in
/// full by a write of fixed length, and a read of as many bytes as its
/// encoding has gives it back.
pub proof fn lemma_utf8_fixed_round_trip(before: Seq<u8>, chars: Seq<char>, after: Seq<u8>)
    requires
        encode_utf8(chars).len() > 0 ==> encode_utf8(chars).last() != 0,
    ensures
        utf8_fixed(chars) == encode_utf8(chars),
        utf8_fixed_reading(
            before + utf8_fixed(chars) + after,
            before.len() as int,
            encode_utf8(chars).len() as int,
        ) == (Reading { text: Ok(chars), cursor: (before.len() + encode_utf8(chars).len()) as int }),
{
    let bytes = encode_utf8(chars);
    let data = before + bytes + after;
    assert(data.subrange(before.len() as int, (before.len() + bytes.len()) as int) =~= bytes);
    encode_utf8_valid_utf8(chars);
    encode_utf8_decode_utf8(chars);
}

/// A wide text whose encoding holds no zero code unit, written with a
/// terminator after `before`, is read back exactly in the same byte order
/// from the position at which it was written, and the cursor then stands
/// behind its terminator, whatever is written after it.
pub proof fn lemma_utf16_terminated_round_trip(
    order: ByteOrder,
    before: Seq<u8>,
    chars: Seq<char>,
    after: Seq<u8>,
)
    requires
        !encode_utf16(chars).contains(0u16),
    ensures
        utf16_terminated(order, chars) == bytes_of_units(order, encode_utf16(chars).push(0u16)),
        utf16_terminated(order, chars).len() == 2 * encode_utf16(chars).len() + 2,
        utf16_terminated_reading(
            order,
            before + utf16_terminated(order, chars) + after,
            before.len() as int,
        ) == (Reading {
            text: Ok(chars),
            cursor: (before.len() + utf16_terminated(order, chars).len()) as int,
        }),
{
    let units = encode_utf16(chars);
    let written = utf16_terminated(order, chars);
    let data = before + written + after;
    let from = before.len() as int;
    let end = from + 2 * units.len();
    if units.len() > 0 {
        assert(units.contains(units[units.len() - 1]));
    }
    assert(written == bytes_of_units(order, units.push(0u16)));
    lemma_unit_round_trip(order, 0u16);
    assert(zero_unit_at(data, end)) by {
        assert(data[end] == written[2 * units.len() as int]);
        assert(data[end + 1] == written[2 * units.len() as int + 1]);
    }
    assert forall|k: int| from <= k < end && (k - from) % 2 == 0 implies !zero_unit_at(data, k) by {
        let i = (k - from) / 2;
        assert(data[k] == written[2 * i]);
        assert(data[k + 1] == written[2 * i + 1]);
        assert(units.contains(units[i]));
        lemma_unit_round_trip(order, units[i]);
    }
    lemma_zero_unit_is_first(data, from, end);
    assert(data.subrange(from, from + 2 * ((end - from) / 2)) =~= bytes_of_units(order, units));
    lemma_units_round_trip(order, units);
    lemma_encode_decode(chars);
}

/// Two wide texts whose encodings hold no zero code unit, written with
/// terminators one after the other, are read back in the same byte order in
/// their order, the second from where the read of the first left the cursor.
pub proof fn lemma_utf16_terminated_sequence(
    order: ByteOrder,
    before: Seq<u8>,
    first: Seq<char>,
    second: Seq<char>,
    after: Seq<u8>,
)
    requires
        !encode_utf16(first).contains(0u16),
        !encode_utf16(second).contains(0u16),
    ensures
        ({
            let data = before + utf16_terminated(order, first) + utf16_terminated(order, second)
                + after;
            let one = utf16_terminated_reading(order, data, before.len() as int);
            let two = utf16_terminated_reading(order, data, one.cursor);
            &&& one.text == Ok::<Seq<char>, Failure>(first)
            &&& one.cursor == before.len() + utf16_terminated(order, first).len()
            &&& two.text == Ok::<Seq<char>, Failure>(second)
            &&& two.cursor == one.cursor + utf16_terminated(order, second).len()
        }),
{
    let data = before + utf16_terminated(order, first) + utf16_terminated(order, second) + after;
    lemma_utf16_terminated_round_trip(
        order,
        before,
        first,
        utf16_terminated(order, second) + after,
    );
    assert(data =~= before + utf16_terminated(order, first) + (utf16_terminated(order, second)
        + after));
    lemma_utf16_terminated_round_trip(
        order,
        before + utf16_terminated(order, first),
        second,
        after,
    );
}

/// A read of a wide text with a terminator from bytes in which none of the
/// code units from the cursor on is zero fails as unterminated and leaves
/// the cursor, in either byte order.
pub proof fn lemma_utf16_unterminated(order: ByteOrder, data: Seq<u8>, from: int)
    requires
        0 <= from,
        forall|k: int|
            from <= k && k + 2 <= data.len() && (k - from) % 2 == 0 ==> !zero_unit_at(data, k),
    ensures
        utf16_terminated_reading(order, data, from) == (Reading {
            text: Err(Failure::Unterminated),
            cursor: from,
        }),
{
    lemma_first_zero_unit(data, from);
}

/// A wide text whose encoding does not end in a zero code unit is written in
/// full by a write of fixed length, and a read of as many code units as its
/// encoding has, in the same byte order, gives it back.
pub proof fn lemma_utf16_fixed_round_trip(
    order: ByteOrder,
    before: Seq<u8>,
    chars: Seq<char>,
    after: Seq<u8>,
)
    requires
        encode_utf16(chars).len() > 0 ==> encode_utf16(chars).last() != 0,
    ensures
        utf16_fixed(order, chars) == bytes_of_units(order, encode_utf16(chars)),
        utf16_fixed_reading(
            order,
            before + utf16_fixed(order, chars) + after,
            before.len() as int,
            encode_utf16(chars).len() as int,
        ) == (Reading { text: Ok(chars), cursor: (before.len() + 2 * encode_utf16(chars).len()) as int }),
{
    let units = encode_utf16(chars);
    let data = before + bytes_of_units(order, units) + after;
    assert(data.subrange(before.len() as int, (before.len() + 2 * units.len()) as int) =~= bytes_of_units(
        order,
        units,
    ));
    lemma_units_round_trip(order, units);
    lemma_encode_decode(chars);
}

/// The cursor of a wide read with a terminator never stands an odd number
/// of bytes from where the read began.
pub proof fn lemma_utf16_reading_is_aligned(order: ByteOrder, data: Seq<u8>, from: int)
    requires
        0 <= from,
    ensures
        (utf16_terminated_reading(order, data, from).cursor - from) % 2 == 0,
        utf16_terminated_reading(order, data, from).text != Err::<Seq<char>, Failure>(
            Failure::Misaligned,
        ),
{
    lemma_first_zero_unit(data, from);
}

} // verus!
