//! How text lies in the bytes of a stream: what a write appends and what a
//! read finds, as functions of the bytes and the cursor.

use vstd::prelude::*;
use vstd::utf8::{decode_utf8, encode_utf8, valid_utf8};
use crate::byte_order::{bytes_of_units, units_of_bytes, ByteOrder};
use crate::utf16::{decode_utf16, encode_utf16, valid_utf16};
use crate::{ByteStreamError, Failure};

verus! {

/// `units` without the zero units at its end, however many there are.
pub open spec fn without_trailing_zeros<T>(units: Seq<T>, zero: T) -> Seq<T>
    decreases units.len(),
{
    if units.len() > 0 && units.last() == zero {
        without_trailing_zeros(units.drop_last(), zero)
    } else {
        units
    }
}

/// `units` followed by one zero unit, or `units` alone where its last unit
/// is zero already.
pub open spec fn with_terminator<T>(units: Seq<T>, zero: T) -> Seq<T> {
    if units.len() > 0 && units.last() == zero {
        units
    } else {
        units.push(zero)
    }
}

/// What `without_trailing_zeros` keeps is the longest beginning of `units`
/// that does not end in a zero unit: it stands at the front of `units`, and
/// every unit behind it is zero.
pub proof fn lemma_without_trailing_zeros<T>(units: Seq<T>, zero: T)
    ensures
        ({
            let kept = without_trailing_zeros(units, zero);
            &&& kept.len() <= units.len()
            &&& kept == units.subrange(0, kept.len() as int)
            &&& kept.len() > 0 ==> kept.last() != zero
            &&& forall|i: int| kept.len() <= i < units.len() ==> units[i] == zero
        }),
    decreases units.len(),
{
    let kept = without_trailing_zeros(units, zero);
    if units.len() > 0 && units.last() == zero {
        let shorter = units.drop_last();
        lemma_without_trailing_zeros(shorter, zero);
        assert(kept =~= units.subrange(0, kept.len() as int));
        assert forall|i: int| kept.len() <= i < units.len() implies units[i] == zero by {
            if i < shorter.len() {
                assert(units[i] == shorter[i]);
            }
        }
    } else {
        assert(kept =~= units.subrange(0, kept.len() as int));
    }
}

/// The bytes that a narrow text of a length known to the reader takes.
pub open spec fn utf8_fixed(chars: Seq<char>) -> Seq<u8> {
    without_trailing_zeros(encode_utf8(chars), 0u8)
}

/// The bytes that a narrow text with a terminator takes.
pub open spec fn utf8_terminated(chars: Seq<char>) -> Seq<u8> {
    with_terminator(encode_utf8(chars), 0u8)
}

/// The bytes that a wide text of a length known to the reader takes.
pub open spec fn utf16_fixed(order: ByteOrder, chars: Seq<char>) -> Seq<u8> {
    bytes_of_units(order, without_trailing_zeros(encode_utf16(chars), 0u16))
}

/// The bytes that a wide text with a terminator takes.
pub open spec fn utf16_terminated(order: ByteOrder, chars: Seq<char>) -> Seq<u8> {
    bytes_of_units(order, with_terminator(encode_utf16(chars), 0u16))
}

/// The position of the first zero byte at or after `from`.
pub open spec fn first_zero_byte(data: Seq<u8>, from: int) -> Option<int>
    decreases data.len() - from,
{
    if from < 0 || from >= data.len() {
        None
    } else if data[from] == 0 {
        Some(from)
    } else {
        first_zero_byte(data, from + 1)
    }
}

/// True where the two bytes at `at` are both zero.
pub open spec fn zero_unit_at(data: Seq<u8>, at: int) -> bool {
    data[at] == 0 && data[at + 1] == 0
}

/// The position of the first zero code unit among the two-byte units that
/// start at `from`, `from + 2`, `from + 4` and so on. A last byte without a
/// partner is no unit.
pub open spec fn first_zero_unit(data: Seq<u8>, from: int) -> Option<int>
    decreases data.len() - from,
{
    if from < 0 || from + 2 > data.len() {
        None
    } else if zero_unit_at(data, from) {
        Some(from)
    } else {
        first_zero_unit(data, from + 2)
    }
}

/// What `first_zero_byte` finds is a zero byte with no zero byte between
/// `from` and it; it finds nothing only where no zero byte follows `from`.
pub proof fn lemma_first_zero_byte(data: Seq<u8>, from: int)
    requires
        0 <= from,
    ensures
        match first_zero_byte(data, from) {
            Some(end) => {
                &&& from <= end < data.len()
                &&& data[end] == 0
                &&& forall|j: int| from <= j < end ==> data[j] != 0
            },
            None => forall|j: int| from <= j < data.len() ==> data[j] != 0,
        },
    decreases data.len() - from,
{
    if from < data.len() && data[from] != 0 {
        lemma_first_zero_byte(data, from + 1);
    }
}

/// A zero byte with no zero byte between `from` and it is what
/// `first_zero_byte` finds.
pub proof fn lemma_zero_byte_is_first(data: Seq<u8>, from: int, end: int)
    requires
        0 <= from <= end < data.len(),
        data[end] == 0,
        forall|j: int| from <= j < end ==> data[j] != 0,
    ensures
        first_zero_byte(data, from) == Some(end),
    decreases end - from,
{
    if from < end {
        lemma_zero_byte_is_first(data, from + 1, end);
    }
}

/// What `first_zero_unit` finds is a zero unit an even number of bytes after
/// `from`, with no zero unit among the units between `from` and it; it finds
/// nothing only where none of the units from `from` on is zero.
pub proof fn lemma_first_zero_unit(data: Seq<u8>, from: int)
    requires
        0 <= from,
    ensures
        match first_zero_unit(data, from) {
            Some(end) => {
                &&& from <= end
                &&& end + 2 <= data.len()
                &&& (end - from) % 2 == 0
                &&& zero_unit_at(data, end)
                &&& forall|k: int|
                    from <= k < end && (k - from) % 2 == 0 ==> !zero_unit_at(data, k)
            },
            None => forall|k: int|
                from <= k && k + 2 <= data.len() && (k - from) % 2 == 0 ==> !zero_unit_at(data, k),
        },
    decreases data.len() - from,
{
    if from + 2 <= data.len() && !zero_unit_at(data, from) {
        lemma_first_zero_unit(data, from + 2);
    }
}

/// A zero unit an even number of bytes after `from`, with no zero unit among
/// the units between `from` and it, is what `first_zero_unit` finds.
pub proof fn lemma_zero_unit_is_first(data: Seq<u8>, from: int, end: int)
    requires
        0 <= from <= end,
        end + 2 <= data.len(),
        (end - from) % 2 == 0,
        zero_unit_at(data, end),
        forall|k: int| from <= k < end && (k - from) % 2 == 0 ==> !zero_unit_at(data, k),
    ensures
        first_zero_unit(data, from) == Some(end),
    decreases end - from,
{
    if from < end {
        assert(!zero_unit_at(data, from));
        lemma_zero_unit_is_first(data, from + 2, end);
    }
}

/// What a read of a text comes to: the text or the failure, and the cursor
/// that the read leaves behind.
pub struct Reading {
    /// The characters that were read, or why none were.
    pub text: Result<Seq<char>, Failure>,
    /// The position of the cursor after the read.
    pub cursor: int,
}

/// Reading `count` bytes from `from` on as UTF-8. The cursor moves past them
/// whether they decode or not.
pub open spec fn utf8_fixed_reading(data: Seq<u8>, from: int, count: int) -> Reading {
    let bytes = data.subrange(from, from + count);
    Reading {
        text: if valid_utf8(bytes) {
            Ok(decode_utf8(bytes))
        } else {
            Err(Failure::InvalidUtf8)
        },
        cursor: from + count,
    }
}

/// Reading `count` code units, two bytes each in the given order, from
/// `from` on as UTF-16. The cursor moves past them whether they decode or
/// not.
pub open spec fn utf16_fixed_reading(
    order: ByteOrder,
    data: Seq<u8>,
    from: int,
    count: int,
) -> Reading {
    let units = units_of_bytes(order, data.subrange(from, from + 2 * count));
    Reading {
        text: if valid_utf16(units) {
            Ok(decode_utf16(units))
        } else {
            Err(Failure::InvalidUtf16)
        },
        cursor: from + 2 * count,
    }
}

/// Reading from `from` up to the first zero byte as UTF-8. Without a zero
/// byte the cursor stays; after a text it stands behind the terminator; after
/// bytes that do not decode it stands on the terminator.
pub open spec fn utf8_terminated_reading(data: Seq<u8>, from: int) -> Reading {
    match first_zero_byte(data, from) {
        None => Reading { text: Err(Failure::Unterminated), cursor: from },
        Some(end) => {
            let body = utf8_fixed_reading(data, from, end - from);
            Reading { text: body.text, cursor: if body.text is Ok { end + 1 } else { end } }
        },
    }
}

/// Reading from `from` up to the first zero code unit as UTF-16. Without a
/// zero unit the cursor stays; after a text it stands behind the terminator;
/// after units that do not decode it stands on the terminator.
pub open spec fn utf16_terminated_reading(order: ByteOrder, data: Seq<u8>, from: int) -> Reading {
    match first_zero_unit(data, from) {
        None => Reading { text: Err(Failure::Unterminated), cursor: from },
        Some(end) => {
            let body = utf16_fixed_reading(order, data, from, (end - from) / 2);
            Reading { text: body.text, cursor: if body.text is Ok { end + 2 } else { end } }
        },
    }
}

/// True where `result` is what a read hands back for `text`: the same
/// characters, or the error that stands for the failure.
pub open spec fn delivers(
    result: Result<String, ByteStreamError>,
    text: Result<Seq<char>, Failure>,
) -> bool {
    match text {
        Ok(chars) => result matches Ok(s) && s@ == chars,
        Err(failure) => result matches Err(e) && e.reports(failure),
    }
}

} // verus!
