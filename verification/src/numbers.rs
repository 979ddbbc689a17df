//! Unsigned integers as bytes in big-endian order: the most significant byte
//! comes first.

use vstd::prelude::*;

verus! {

/// The value of two bytes read in big-endian order.
pub open spec fn u16_of_bytes(bytes: Seq<u8>) -> int
    recommends
        bytes.len() == 2,
{
    bytes[0] * 0x100 + bytes[1]
}

/// The value of four bytes read in big-endian order.
pub open spec fn u32_of_bytes(bytes: Seq<u8>) -> int
    recommends
        bytes.len() == 4,
{
    bytes[0] * 0x100_0000 + bytes[1] * 0x1_0000 + bytes[2] * 0x100 + bytes[3]
}

/// The value of eight bytes read in big-endian order.
pub open spec fn u64_of_bytes(bytes: Seq<u8>) -> int
    recommends
        bytes.len() == 8,
{
    bytes[0] * 0x100_0000_0000_0000 + bytes[1] * 0x1_0000_0000_0000 + bytes[2] * 0x100_0000_0000
        + bytes[3] * 0x1_0000_0000 + bytes[4] * 0x100_0000 + bytes[5] * 0x1_0000 + bytes[6] * 0x100
        + bytes[7]
}

/// The two bytes of `value`, most significant first.
pub open spec fn bytes_of_u16(value: u16) -> Seq<u8> {
    seq![(value / 0x100) as u8, (value % 0x100) as u8]
}

/// The four bytes of `value`, most significant first.
pub open spec fn bytes_of_u32(value: u32) -> Seq<u8> {
    seq![
        (value / 0x100_0000) as u8,
        (value / 0x1_0000 % 0x100) as u8,
        (value / 0x100 % 0x100) as u8,
        (value % 0x100) as u8,
    ]
}

/// The eight bytes of `value`, most significant first.
pub open spec fn bytes_of_u64(value: u64) -> Seq<u8> {
    seq![
        (value / 0x100_0000_0000_0000) as u8,
        (value / 0x1_0000_0000_0000 % 0x100) as u8,
        (value / 0x100_0000_0000 % 0x100) as u8,
        (value / 0x1_0000_0000 % 0x100) as u8,
        (value / 0x100_0000 % 0x100) as u8,
        (value / 0x1_0000 % 0x100) as u8,
        (value / 0x100 % 0x100) as u8,
        (value % 0x100) as u8,
    ]
}

/// Reading the bytes of a 16-bit value gives the value back.
pub proof fn lemma_u16_bytes_round_trip(value: u16)
    ensures
        bytes_of_u16(value).len() == 2,
        u16_of_bytes(bytes_of_u16(value)) == value,
{
}

/// Reading the bytes of a 32-bit value gives the value back.
pub proof fn lemma_u32_bytes_round_trip(value: u32)
    ensures
        bytes_of_u32(value).len() == 4,
        u32_of_bytes(bytes_of_u32(value)) == value,
{
    assert(value == (value / 0x100_0000) * 0x100_0000 + (value / 0x1_0000 % 0x100) * 0x1_0000 + (
    value / 0x100 % 0x100) * 0x100 + value % 0x100) by (bit_vector);
}

/// Reading the bytes of a 64-bit value gives the value back.
pub proof fn lemma_u64_bytes_round_trip(value: u64)
    ensures
        bytes_of_u64(value).len() == 8,
        u64_of_bytes(bytes_of_u64(value)) == value,
{
    assert(value == (value / 0x100_0000_0000_0000) * 0x100_0000_0000_0000 + (value
        / 0x1_0000_0000_0000 % 0x100) * 0x1_0000_0000_0000 + (value / 0x100_0000_0000 % 0x100)
        * 0x100_0000_0000 + (value / 0x1_0000_0000 % 0x100) * 0x1_0000_0000 + (value / 0x100_0000
        % 0x100) * 0x100_0000 + (value / 0x1_0000 % 0x100) * 0x1_0000 + (value / 0x100 % 0x100)
        * 0x100 + value % 0x100) by (bit_vector);
}

/// Two bytes are the bytes of the value that they read as.
pub proof fn lemma_u16_value_round_trip(bytes: Seq<u8>)
    requires
        bytes.len() == 2,
    ensures
        0 <= u16_of_bytes(bytes) <= u16::MAX,
        bytes_of_u16(u16_of_bytes(bytes) as u16) == bytes,
{
    let (b0, b1) = (bytes[0], bytes[1]);
    let value = (b0 * 0x100 + b1) as u16;
    assert(value / 0x100 == b0 && value % 0x100 == b1);
    assert(bytes_of_u16(value) =~= bytes);
}

/// Four bytes are the bytes of the value that they read as.
pub proof fn lemma_u32_value_round_trip(bytes: Seq<u8>)
    requires
        bytes.len() == 4,
    ensures
        0 <= u32_of_bytes(bytes) <= u32::MAX,
        bytes_of_u32(u32_of_bytes(bytes) as u32) == bytes,
{
    let (b0, b1, b2, b3) = (bytes[0], bytes[1], bytes[2], bytes[3]);
    let value = (b0 * 0x100_0000 + b1 * 0x1_0000 + b2 * 0x100 + b3) as u32;
    assert(value / 0x100_0000 == b0 && value / 0x1_0000 % 0x100 == b1 && value / 0x100 % 0x100
        == b2 && value % 0x100 == b3) by (bit_vector)
        requires
            value == b0 * 0x100_0000 + b1 * 0x1_0000 + b2 * 0x100 + b3,
    ;
    assert(bytes_of_u32(value) =~= bytes);
}

/// Eight bytes are the bytes of the value that they read as.
pub proof fn lemma_u64_value_round_trip(bytes: Seq<u8>)
    requires
        bytes.len() == 8,
    ensures
        0 <= u64_of_bytes(bytes) <= u64::MAX,
        bytes_of_u64(u64_of_bytes(bytes) as u64) == bytes,
{
    let (b0, b1, b2, b3) = (bytes[0], bytes[1], bytes[2], bytes[3]);
    let (b4, b5, b6, b7) = (bytes[4], bytes[5], bytes[6], bytes[7]);
    let value = (b0 * 0x100_0000_0000_0000 + b1 * 0x1_0000_0000_0000 + b2 * 0x100_0000_0000 + b3
        * 0x1_0000_0000 + b4 * 0x100_0000 + b5 * 0x1_0000 + b6 * 0x100 + b7) as u64;
    assert(value / 0x100_0000_0000_0000 == b0 && value / 0x1_0000_0000_0000 % 0x100 == b1 && value
        / 0x100_0000_0000 % 0x100 == b2 && value / 0x1_0000_0000 % 0x100 == b3 && value
        / 0x100_0000 % 0x100 == b4 && value / 0x1_0000 % 0x100 == b5 && value / 0x100 % 0x100
        == b6 && value % 0x100 == b7) by (bit_vector)
        requires
            value == b0 * 0x100_0000_0000_0000 + b1 * 0x1_0000_0000_0000 + b2 * 0x100_0000_0000
                + b3 * 0x1_0000_0000 + b4 * 0x100_0000 + b5 * 0x1_0000 + b6 * 0x100 + b7,
    ;
    assert(bytes_of_u64(value) =~= bytes);
}

} // verus!
