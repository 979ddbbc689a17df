//! The two orders in which the bytes of a 16-bit code unit can stand, and the
//! order that the machine itself uses.

use vstd::prelude::*;

verus! {

/// The order of the two bytes of a 16-bit code unit.
#[derive(Clone, Copy, Debug, PartialEq, Eq)]
pub enum ByteOrder {
    /// The more significant byte comes first.
    BigEndian,
    /// The less significant byte comes first.
    LittleEndian,
}

impl ByteOrder {
    /// The code unit whose bytes, in this order, are `first` and `second`.
    pub open spec fn unit(self, first: u8, second: u8) -> u16 {
        match self {
            ByteOrder::BigEndian => (first * 0x100 + second) as u16,
            ByteOrder::LittleEndian => (second * 0x100 + first) as u16,
        }
    }

    /// The byte of `unit` that comes first in this order.
    pub open spec fn first_byte(self, unit: u16) -> u8 {
        match self {
            ByteOrder::BigEndian => (unit / 0x100) as u8,
            ByteOrder::LittleEndian => (unit % 0x100) as u8,
        }
    }

    /// The byte of `unit` that comes second in this order.
    pub open spec fn second_byte(self, unit: u16) -> u8 {
        match self {
            ByteOrder::BigEndian => (unit % 0x100) as u8,
            ByteOrder::LittleEndian => (unit / 0x100) as u8,
        }
    }

    /// Puts two bytes together to the code unit that they are in this order.
    pub fn join(self, first: u8, second: u8) -> (unit: u16)
        ensures
            unit == self.unit(first, second),
    {
        match self {
            ByteOrder::BigEndian => (first as u16) * 0x100 + (second as u16),
            ByteOrder::LittleEndian => (second as u16) * 0x100 + (first as u16),
        }
    }

    /// Takes a code unit apart into its two bytes in this order.
    pub fn split(self, unit: u16) -> (bytes: (u8, u8))
        ensures
            bytes.0 == self.first_byte(unit),
            bytes.1 == self.second_byte(unit),
    {
        let high: u8 = (unit / 0x100) as u8;
        let low: u8 = (unit % 0x100) as u8;
        match self {
            ByteOrder::BigEndian => (high, low),
            ByteOrder::LittleEndian => (low, high),
        }
    }
}

/// The code units that `bytes` hold in the given order, two bytes to a unit.
/// A last byte without a partner belongs to no unit.
pub open spec fn units_of_bytes(order: ByteOrder, bytes: Seq<u8>) -> Seq<u16> {
    Seq::new(bytes.len() / 2, |i: int| order.unit(bytes[2 * i], bytes[2 * i + 1]))
}

/// The bytes of `units` in the given order, two for each unit.
pub open spec fn bytes_of_units(order: ByteOrder, units: Seq<u16>) -> Seq<u8> {
    Seq::new(
        2 * units.len(),
        |j: int|
            if j % 2 == 0 {
                order.first_byte(units[j / 2])
            } else {
                order.second_byte(units[j / 2])
            },
    )
}

/// The two bytes of a code unit give the unit back when they are joined in
/// the same order, and only the zero unit has two zero bytes.
pub proof fn lemma_unit_round_trip(order: ByteOrder, unit: u16)
    ensures
        order.unit(order.first_byte(unit), order.second_byte(unit)) == unit,
        (order.first_byte(unit) == 0 && order.second_byte(unit) == 0) <==> unit == 0,
{
}

/// Two bytes are the bytes of the unit that they join to.
pub proof fn lemma_bytes_round_trip(order: ByteOrder, first: u8, second: u8)
    ensures
        order.first_byte(order.unit(first, second)) == first,
        order.second_byte(order.unit(first, second)) == second,
        order.unit(first, second) == 0 <==> (first == 0 && second == 0),
{
}

/// Reading the bytes of a sequence of code units in the order in which they
/// were laid out gives the units back.
pub proof fn lemma_units_round_trip(order: ByteOrder, units: Seq<u16>)
    ensures
        bytes_of_units(order, units).len() == 2 * units.len(),
        units_of_bytes(order, bytes_of_units(order, units)) == units,
{
    let bytes = bytes_of_units(order, units);
    assert forall|i: int| 0 <= i < units.len() implies units_of_bytes(order, bytes)[i]
        == units[i] by {
        lemma_unit_round_trip(order, units[i]);
        assert(bytes[2 * i] == order.first_byte(units[i]));
        assert(bytes[2 * i + 1] == order.second_byte(units[i]));
    }
    assert(units_of_bytes(order, bytes) =~= units);
}

/// `u16::from_ne_bytes`, taken on trust: it gives the code unit that two
/// bytes are in the byte order of the machine. Which order that is differs
/// from machine to machine, so the contract only says that it is one of the
/// two.
#[verifier::external_body]
fn unit_in_native_order(first: u8, second: u8) -> (unit: u16)
    ensures
        unit == ByteOrder::BigEndian.unit(first, second) || unit
            == ByteOrder::LittleEndian.unit(first, second),
{
    u16::from_ne_bytes([first, second])
}

/// The byte order of the machine, found by reading the bytes 0 and 1 as one
/// code unit in that order. Either order may come back, so nothing is
/// promised of the result here: `order_of_probe` says which order belongs to
/// which code unit.
pub fn native_byte_order() -> ByteOrder {
    order_of_probe(unit_in_native_order(0, 1))
}

/// The byte order in which the bytes 0 and 1 are the code unit `probe`: that
/// unit is 1 where the more significant byte comes first and 0x100 where the
/// less significant byte comes first. Any other unit, which no order gives,
/// counts as little-endian.
pub fn order_of_probe(probe: u16) -> (order: ByteOrder)
    ensures
        probe == 1 ==> order == ByteOrder::BigEndian,
        probe != 1 ==> order == ByteOrder::LittleEndian,
        (probe == ByteOrder::BigEndian.unit(0, 1) || probe == ByteOrder::LittleEndian.unit(0, 1))
            ==> order.unit(0, 1) == probe,
{
    if probe == 1 {
        ByteOrder::BigEndian
    } else {
        ByteOrder::LittleEndian
    }
}

} // verus!
