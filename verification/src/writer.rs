//! A growing buffer of bytes to which numbers and text are appended.

use vstd::prelude::*;
use vstd::slice::{slice_subrange, slice_to_vec};
use crate::byte_order::{bytes_of_units, native_byte_order, ByteOrder};
use crate::layout::{
    utf16_fixed, utf16_terminated, utf8_fixed, utf8_terminated, with_terminator,
    without_trailing_zeros,
};
use crate::numbers::{bytes_of_u16, bytes_of_u32, bytes_of_u64};
use crate::utf16::utf16_units;

verus! {

/// The bytes written so far. A write only ever appends to them.
pub struct StreamWriter {
    buffer: Vec<u8>,
}

impl View for StreamWriter {
    type V = Seq<u8>;

    /// The bytes written so far, in the order in which they were written.
    closed spec fn view(&self) -> Seq<u8> {
        self.buffer@
    }
}

impl StreamWriter {
    /// Appends one byte.
    pub fn write_u8(&mut self, data: u8)
        ensures
            final(self)@ == old(self)@.push(data),
    {
        self.buffer.push(data);
    }

    /// Appends the two bytes of `data` in big-endian order.
    pub fn write_u16(&mut self, data: u16)
        ensures
            final(self)@ == old(self)@ + bytes_of_u16(data),
    {
        self.buffer.push((data / 0x100) as u8);
        self.buffer.push((data % 0x100) as u8);
        assert(self@ =~= old(self)@ + bytes_of_u16(data));
    }

    /// Appends the four bytes of `data` in big-endian order.
    pub fn write_u32(&mut self, data: u32)
        ensures
            final(self)@ == old(self)@ + bytes_of_u32(data),
    {
        self.buffer.push((data / 0x100_0000) as u8);
        self.buffer.push((data / 0x1_0000 % 0x100) as u8);
        self.buffer.push((data / 0x100 % 0x100) as u8);
        self.buffer.push((data % 0x100) as u8);
        assert(self@ =~= old(self)@ + bytes_of_u32(data));
    }

    /// Appends the eight bytes of `data` in big-endian order.
    pub fn write_u64(&mut self, data: u64)
        ensures
            final(self)@ == old(self)@ + bytes_of_u64(data),
    {
        self.buffer.push((data / 0x100_0000_0000_0000) as u8);
        self.buffer.push((data / 0x1_0000_0000_0000 % 0x100) as u8);
        self.buffer.push((data / 0x100_0000_0000 % 0x100) as u8);
        self.buffer.push((data / 0x1_0000_0000 % 0x100) as u8);
        self.buffer.push((data / 0x100_0000 % 0x100) as u8);
        self.buffer.push((data / 0x1_0000 % 0x100) as u8);
        self.buffer.push((data / 0x100 % 0x100) as u8);
        self.buffer.push((data % 0x100) as u8);
        assert(self@ =~= old(self)@ + bytes_of_u64(data));
    }

    /// Appends the UTF-8 bytes of `data` without the zero bytes at their end.
    /// Nothing is padded: a caller who needs a field of a given width fills
    /// it up.
    pub fn write_utf8_string_fixed(&mut self, data: String)
        ensures
            final(self)@ == old(self)@ + utf8_fixed(data@),
    {
        let bytes = data.as_str().as_bytes();
        let kept: usize = trimmed_len_u8(bytes);
        let mut tail = slice_to_vec(slice_subrange(bytes, 0, kept));
        self.buffer.append(&mut tail);
    }

    /// Appends the UTF-16 code units of `data` without the zero units at
    /// their end, two bytes for each unit in the given order.
    pub fn write_utf16_string_fixed_as(&mut self, order: ByteOrder, data: String)
        ensures
            final(self)@ == old(self)@ + utf16_fixed(order, data@),
    {
        let units = utf16_units(data.as_str());
        let kept: usize = trimmed_len_u16(units.as_slice());
        self.append_units(order, slice_subrange(units.as_slice(), 0, kept));
    }

    /// Appends the UTF-16 code units of `data` without the zero units at
    /// their end, two bytes for each unit in the byte order of the machine as
    /// `native_byte_order` finds it, which is one of the two orders.
    pub fn write_utf16_string_fixed(&mut self, data: String)
        ensures
            exists|order: ByteOrder| final(self)@ == old(self)@ + #[trigger] utf16_fixed(order, data@),
    {
        self.write_utf16_string_fixed_as(native_byte_order(), data)
    }

    /// Appends the UTF-8 bytes of `data` and then one zero byte, unless the
    /// last byte of `data` is zero already.
    pub fn write_utf8_string_terminated(&mut self, data: String)
        ensures
            final(self)@ == old(self)@ + utf8_terminated(data@),
    {
        let bytes = data.as_str().as_bytes();
        let mut tail = slice_to_vec(bytes);
        self.buffer.append(&mut tail);
        if bytes.len() == 0 || bytes[bytes.len() - 1] != 0 {
            self.buffer.push(0);
        }
        assert(self@ =~= old(self)@ + utf8_terminated(data@));
    }

    /// Appends the UTF-16 code units of `data` and then one zero unit, unless
    /// the last unit of `data` is zero already, two bytes for each unit in
    /// the given order.
    pub fn write_utf16_string_terminated_as(&mut self, order: ByteOrder, data: String)
        ensures
            final(self)@ == old(self)@ + utf16_terminated(order, data@),
    {
        let mut units = utf16_units(data.as_str());
        if units.len() == 0 || units[units.len() - 1] != 0 {
            units.push(0);
        }
        self.append_units(order, units.as_slice());
    }

    /// Appends the UTF-16 code units of `data` and then one zero unit, unless
    /// the last unit of `data` is zero already, two bytes for each unit in
    /// the byte order of the machine as `native_byte_order` finds it, which
    /// is one of the two orders.
    pub fn write_utf16_string_terminated(&mut self, data: String)
        ensures
            exists|order: ByteOrder|
                final(self)@ == old(self)@ + #[trigger] utf16_terminated(order, data@),
    {
        self.write_utf16_string_terminated_as(native_byte_order(), data)
    }

    /// The bytes written so far. More may be written afterwards.
    pub fn get(&self) -> (bytes: &Vec<u8>)
        ensures
            bytes@ == self@,
    {
        &self.buffer
    }

    /// Appends the two bytes of each unit in the given order.
    fn append_units(&mut self, order: ByteOrder, units: &[u16])
        ensures
            final(self)@ == old(self)@ + bytes_of_units(order, units@),
    {
        let mut done: usize = 0;
        while done < units.len()
            invariant
                done <= units@.len(),
                self@ == old(self)@ + bytes_of_units(order, units@.subrange(0, done as int)),
            decreases units@.len() - done,
        {
            let (first, second) = order.split(units[done]);
            self.buffer.push(first);
            self.buffer.push(second);
            proof {
                let before = bytes_of_units(order, units@.subrange(0, done as int));
                let after = bytes_of_units(order, units@.subrange(0, done + 1));
                assert(after =~= before.push(first).push(second));
            }
            done += 1;
        }
        assert(units@.subrange(0, done as int) =~= units@);
    }
}

/// A writer that has written nothing yet.
pub fn create() -> (writer: StreamWriter)
    ensures
        writer@ == Seq::<u8>::empty(),
{
    StreamWriter { buffer: Vec::new() }
}

/// The length of `bytes` without the zero bytes at their end.
fn trimmed_len_u8(bytes: &[u8]) -> (kept: usize)
    ensures
        kept <= bytes@.len(),
        bytes@.subrange(0, kept as int) == without_trailing_zeros(bytes@, 0u8),
{
    let mut kept: usize = bytes.len();
    assert(bytes@.subrange(0, kept as int) =~= bytes@);
    while kept > 0 && bytes[kept - 1] == 0
        invariant
            kept <= bytes@.len(),
            without_trailing_zeros(bytes@.subrange(0, kept as int), 0u8) == without_trailing_zeros(
                bytes@,
                0u8,
            ),
        decreases kept,
    {
        assert(bytes@.subrange(0, kept as int).drop_last() =~= bytes@.subrange(0, kept - 1));
        kept -= 1;
    }
    kept
}

/// The length of `units` without the zero units at their end.
fn trimmed_len_u16(units: &[u16]) -> (kept: usize)
    ensures
        kept <= units@.len(),
        units@.subrange(0, kept as int) == without_trailing_zeros(units@, 0u16),
{
    let mut kept: usize = units.len();
    assert(units@.subrange(0, kept as int) =~= units@);
    while kept > 0 && units[kept - 1] == 0
        invariant
            kept <= units@.len(),
            without_trailing_zeros(units@.subrange(0, kept as int), 0u16)
                == without_trailing_zeros(units@, 0u16),
        decreases kept,
    {
        assert(units@.subrange(0, kept as int).drop_last() =~= units@.subrange(0, kept - 1));
        kept -= 1;
    }
    kept
}

} // verus!
