//! A cursor over borrowed bytes that decodes numbers and text front to back.

use vstd::prelude::*;
use vstd::slice::{slice_subrange, slice_to_vec};
use crate::byte_order::{native_byte_order, units_of_bytes, ByteOrder};
use crate::layout::{
    delivers, first_zero_byte, first_zero_unit, utf16_fixed_reading, utf16_terminated_reading,
    utf8_fixed_reading, utf8_terminated_reading,
};
use crate::numbers::{u16_of_bytes, u32_of_bytes, u64_of_bytes};
use crate::{ByteStreamError, Failure};

verus! {

/// A read position in a borrowed sequence of bytes. Every read takes bytes
/// from `index` on and moves `index` past what it took.
pub struct StreamReader<'a> {
    /// The number of bytes consumed so far.
    pub index: usize,
    /// The bytes that are read. They are never copied or changed.
    pub data: &'a [u8],
}

impl<'a> StreamReader<'a> {
    /// The cursor lies within the bytes or at their end.
    pub open spec fn wf(&self) -> bool {
        self.index <= self.data@.len()
    }

    /// True where at least `count` bytes lie between the cursor and the end.
    pub open spec fn has(&self, count: int) -> bool {
        0 <= count && self.index + count <= self.data@.len()
    }

    /// The `count` bytes that follow the cursor.
    pub open spec fn ahead(&self, count: int) -> Seq<u8>
        recommends
            self.has(count),
    {
        self.data@.subrange(self.index as int, self.index + count)
    }

    /// Reads one byte.
    pub fn read_u8(&mut self) -> (value: u8)
        requires
            old(self).has(1),
        ensures
            value == old(self).data@[old(self).index as int],
            final(self).index == old(self).index + 1,
            final(self).data == old(self).data,
            final(self).wf(),
    {
        let value: u8 = self.data[self.index];
        self.index += 1;
        value
    }

    /// Reads a 16-bit number from two bytes in big-endian order.
    pub fn read_u16(&mut self) -> (value: u16)
        requires
            old(self).has(2),
        ensures
            value == u16_of_bytes(old(self).ahead(2)),
            final(self).index == old(self).index + 2,
            final(self).data == old(self).data,
            final(self).wf(),
    {
        let at: usize = self.index;
        let value: u16 = (self.data[at] as u16) * 0x100 + (self.data[at + 1] as u16);
        self.index += 2;
        value
    }

    /// Reads a 32-bit number from four bytes in big-endian order.
    pub fn read_u32(&mut self) -> (value: u32)
        requires
            old(self).has(4),
        ensures
            value == u32_of_bytes(old(self).ahead(4)),
            final(self).index == old(self).index + 4,
            final(self).data == old(self).data,
            final(self).wf(),
    {
        let at: usize = self.index;
        let value: u32 = (self.data[at] as u32) * 0x100_0000 + (self.data[at + 1] as u32) * 0x1_0000
            + (self.data[at + 2] as u32) * 0x100 + (self.data[at + 3] as u32);
        self.index += 4;
        value
    }

    /// Reads a 64-bit number from eight bytes in big-endian order.
    pub fn read_u64(&mut self) -> (value: u64)
        requires
            old(self).has(8),
        ensures
            value == u64_of_bytes(old(self).ahead(8)),
            final(self).index == old(self).index + 8,
            final(self).data == old(self).data,
            final(self).wf(),
    {
        let at: usize = self.index;
        let value: u64 = (self.data[at] as u64) * 0x100_0000_0000_0000 + (self.data[at + 1] as u64)
            * 0x1_0000_0000_0000 + (self.data[at + 2] as u64) * 0x100_0000_0000 + (self.data[at
            + 3] as u64) * 0x1_0000_0000 + (self.data[at + 4] as u64) * 0x100_0000 + (self.data[at
            + 5] as u64) * 0x1_0000 + (self.data[at + 6] as u64) * 0x100 + (self.data[at
            + 7] as u64);
        self.index += 8;
        value
    }

    /// Reads `num_elements` bytes as UTF-8 text. The cursor moves past them
    /// even where they do not decode.
    pub fn read_utf8_string_fixed(&mut self, num_elements: usize) -> (result: Result<
        String,
        ByteStreamError,
    >)
        requires
            old(self).has(num_elements as int),
        ensures
            delivers(
                result,
                utf8_fixed_reading(
                    old(self).data@,
                    old(self).index as int,
                    num_elements as int,
                ).text,
            ),
            final(self).index == old(self).index + num_elements,
            final(self).data == old(self).data,
            final(self).wf(),
    {
        assert(self.data@.len() == self.data.len());
        let end: usize = self.index + num_elements;
        let bytes = slice_to_vec(slice_subrange(self.data, self.index, end));
        self.index = end;
        match String::from_utf8(bytes) {
            Ok(text) => Ok(text),
            Err(error) => Err(ByteStreamError::FromUtf8Error(error)),
        }
    }

    /// Reads `num_elements` code units, two bytes each in the given order, as
    /// UTF-16 text. The cursor moves past them even where they do not decode.
    pub fn read_utf16_string_fixed_as(&mut self, order: ByteOrder, num_elements: usize) -> (result:
        Result<String, ByteStreamError>)
        requires
            old(self).has(2 * num_elements),
        ensures
            delivers(
                result,
                utf16_fixed_reading(
                    order,
                    old(self).data@,
                    old(self).index as int,
                    num_elements as int,
                ).text,
            ),
            final(self).index == old(self).index + 2 * num_elements,
            final(self).data == old(self).data,
            final(self).wf(),
    {
        assert(self.data@.len() == self.data.len());
        let start: usize = self.index;
        let mut units: Vec<u16> = Vec::new();
        let mut done: usize = 0;
        while done < num_elements
            invariant
                done <= num_elements,
                start + 2 * num_elements <= self.data@.len() <= usize::MAX,
                units@.len() == done,
                forall|k: int|
                    0 <= k < done ==> units@[k] == order.unit(
                        #[trigger] self.data@[start + 2 * k],
                        self.data@[start + 2 * k + 1],
                    ),
            decreases num_elements - done,
        {
            let at: usize = start + 2 * done;
            units.push(order.join(self.data[at], self.data[at + 1]));
            done += 1;
        }
        proof {
            let bytes = self.data@.subrange(start as int, start + 2 * num_elements);
            assert forall|k: int| 0 <= k < num_elements implies units@[k] == units_of_bytes(
                order,
                bytes,
            )[k] by {
                assert(bytes[2 * k] == self.data@[start + 2 * k]);
                assert(bytes[2 * k + 1] == self.data@[start + 2 * k + 1]);
            }
            assert(units@ =~= units_of_bytes(order, bytes));
        }
        self.index = start + 2 * num_elements;
        match String::from_utf16(units.as_slice()) {
            Ok(text) => Ok(text),
            Err(error) => Err(ByteStreamError::FromUtf16Error(error)),
        }
    }

    /// Reads `num_elements` code units as UTF-16 text, two bytes each in the
    /// byte order of the machine as `native_byte_order` finds it, which is
    /// one of the two orders.
    pub fn read_utf16_string_fixed(&mut self, num_elements: usize) -> (result: Result<
        String,
        ByteStreamError,
    >)
        requires
            old(self).has(2 * num_elements),
        ensures
            exists|order: ByteOrder|
                delivers(
                    result,
                    (#[trigger] utf16_fixed_reading(
                        order,
                        old(self).data@,
                        old(self).index as int,
                        num_elements as int,
                    )).text,
                ),
            final(self).index == old(self).index + 2 * num_elements,
            final(self).data == old(self).data,
            final(self).wf(),
    {
        self.read_utf16_string_fixed_as(native_byte_order(), num_elements)
    }

    /// Reads the bytes up to the first zero byte as UTF-8 text and moves the
    /// cursor behind that byte. Without a zero byte the cursor stays where it
    /// is; where the bytes do not decode it stops on the zero byte.
    pub fn read_utf8_string_terminated(&mut self) -> (result: Result<String, ByteStreamError>)
        requires
            old(self).wf(),
        ensures
            delivers(
                result,
                utf8_terminated_reading(old(self).data@, old(self).index as int).text,
            ),
            final(self).index == utf8_terminated_reading(
                old(self).data@,
                old(self).index as int,
            ).cursor,
            final(self).index >= old(self).index,
            final(self).data == old(self).data,
            final(self).wf(),
    {
        assert(self.data@.len() == self.data.len());
        match find_zero_byte(self.data, self.index) {
            None => Err(ByteStreamError::unterminated()),
            Some(end) => {
                let text = self.read_utf8_string_fixed(end - self.index)?;
                self.index += 1;
                Ok(text)
            },
        }
    }

    /// Reads the code units up to the first zero unit as UTF-16 text, two
    /// bytes each in the given order, and moves the cursor behind that unit.
    /// Without a zero unit the cursor stays where it is; where the units do
    /// not decode it stops on the zero unit.
    pub fn read_utf16_string_terminated_as(&mut self, order: ByteOrder) -> (result: Result<
        String,
        ByteStreamError,
    >)
        requires
            old(self).wf(),
        ensures
            delivers(
                result,
                utf16_terminated_reading(order, old(self).data@, old(self).index as int).text,
            ),
            final(self).index == utf16_terminated_reading(
                order,
                old(self).data@,
                old(self).index as int,
            ).cursor,
            final(self).index >= old(self).index,
            final(self).data == old(self).data,
            final(self).wf(),
    {
        assert(self.data@.len() == self.data.len());
        match find_zero_unit(self.data, self.index) {
            None => Err(ByteStreamError::unterminated()),
            Some(end) => {
                let count: usize = code_unit_count(end - self.index)?;
                let text = self.read_utf16_string_fixed_as(order, count)?;
                self.index += 2;
                Ok(text)
            },
        }
    }

    /// Reads the code units up to the first zero unit as UTF-16 text, two
    /// bytes each in the byte order of the machine as `native_byte_order`
    /// finds it, which is one of the two orders.
    pub fn read_utf16_string_terminated(&mut self) -> (result: Result<String, ByteStreamError>)
        requires
            old(self).wf(),
        ensures
            exists|order: ByteOrder|
                {
                    let reading = #[trigger] utf16_terminated_reading(
                        order,
                        old(self).data@,
                        old(self).index as int,
                    );
                    delivers(result, reading.text) && final(self).index == reading.cursor
                },
            final(self).index >= old(self).index,
            final(self).data == old(self).data,
            final(self).wf(),
    {
        self.read_utf16_string_terminated_as(native_byte_order())
    }
}

/// The number of code units in `distance` bytes of wide text, which must be
/// an even number of bytes.
pub fn code_unit_count(distance: usize) -> (count: Result<usize, ByteStreamError>)
    ensures
        distance % 2 == 0 ==> (count matches Ok(units) && units == distance / 2),
        distance % 2 != 0 ==> (count matches Err(error) && error.reports(Failure::Misaligned)),
{
    if distance % 2 != 0 {
        Err(ByteStreamError::misaligned())
    } else {
        Ok(distance / 2)
    }
}

/// Looks for the first zero byte at or after `from`.
fn find_zero_byte(data: &[u8], from: usize) -> (found: Option<usize>)
    requires
        from <= data@.len(),
    ensures
        first_zero_byte(data@, from as int) == match found {
            Some(at) => Some(at as int),
            None => None,
        },
        found matches Some(at) ==> from <= at < data@.len(),
{
    let mut at: usize = from;
    while at < data.len()
        invariant
            from <= at <= data@.len(),
            first_zero_byte(data@, at as int) == first_zero_byte(data@, from as int),
        decreases data@.len() - at,
    {
        if data[at] == 0 {
            return Some(at);
        }
        at += 1;
    }
    None
}

/// Looks for the first zero code unit among the two-byte units from `from`
/// on.
fn find_zero_unit(data: &[u8], from: usize) -> (found: Option<usize>)
    requires
        from <= data@.len(),
    ensures
        first_zero_unit(data@, from as int) == match found {
            Some(at) => Some(at as int),
            None => None,
        },
        found matches Some(at) ==> from <= at && at + 2 <= data@.len() && (at - from) % 2 == 0,
{
    let mut at: usize = from;
    while data.len() - at >= 2
        invariant
            from <= at <= data@.len(),
            (at - from) % 2 == 0,
            first_zero_unit(data@, at as int) == first_zero_unit(data@, from as int),
        decreases data@.len() - at,
    {
        if data[at] == 0 && data[at + 1] == 0 {
            return Some(at);
        }
        at += 2;
    }
    None
}

/// A reader at the start of `data`.
pub fn from_slice<'a>(data: &'a [u8]) -> (reader: StreamReader<'a>)
    ensures
        reader.index == 0,
        reader.data == data,
        reader.wf(),
{
    StreamReader { index: 0, data }
}

/// A reader at the start of the bytes of `data`.
pub fn from_vec<'a>(data: &'a Vec<u8>) -> (reader: StreamReader<'a>)
    ensures
        reader.index == 0,
        reader.data@ == data@,
        reader.wf(),
{
    StreamReader { index: 0, data: data.as_slice() }
}

} // verus!
