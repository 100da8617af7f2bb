//! Byte orders, and the integers that bytes stand for under each of them.

use vstd::prelude::*;

verus! {

/// The order in which the bytes of an integer are stored.
#[derive(Clone, Copy, Debug, PartialEq, Eq, Structural)]
pub enum Endianness {
    /// The least significant byte comes first.
    Little,
    /// The most significant byte comes first.
    Big,
}

/// The 16-bit integer that the first two bytes of `bytes` stand for.
pub open spec fn u16_of(bytes: Seq<u8>, order: Endianness) -> u16 {
    match order {
        Endianness::Little => (bytes[0] + 0x100 * bytes[1]) as u16,
        Endianness::Big => (bytes[1] + 0x100 * bytes[0]) as u16,
    }
}

/// The 32-bit integer that the first four bytes of `bytes` stand for.
pub open spec fn u32_of(bytes: Seq<u8>, order: Endianness) -> u32 {
    match order {
        Endianness::Little => (bytes[0] + 0x100 * bytes[1] + 0x1_0000 * bytes[2] + 0x100_0000
            * bytes[3]) as u32,
        Endianness::Big => (bytes[3] + 0x100 * bytes[2] + 0x1_0000 * bytes[1] + 0x100_0000
            * bytes[0]) as u32,
    }
}

/// The signed integer with the same 16 bits as `value`.
pub open spec fn signed16(value: u16) -> i16 {
    if value < 0x8000 {
        value as i16
    } else {
        (value - 0x1_0000) as i16
    }
}

/// The signed integer with the same 32 bits as `value`.
pub open spec fn signed32(value: u32) -> i32 {
    if value < 0x8000_0000 {
        value as i32
    } else {
        (value - 0x1_0000_0000) as i32
    }
}

/// The unsigned integer with the same 16 bits as `value`.
pub open spec fn unsigned16(value: i16) -> u16 {
    if value >= 0 {
        value as u16
    } else {
        (value + 0x1_0000) as u16
    }
}

/// The unsigned integer with the same 32 bits as `value`.
pub open spec fn unsigned32(value: i32) -> u32 {
    if value >= 0 {
        value as u32
    } else {
        (value + 0x1_0000_0000) as u32
    }
}

/// The two bytes that stand for `value`.
pub open spec fn u16_bytes(value: u16, order: Endianness) -> Seq<u8> {
    let low = (value % 0x100) as u8;
    let high = (value / 0x100) as u8;
    match order {
        Endianness::Little => seq![low, high],
        Endianness::Big => seq![high, low],
    }
}

/// The four bytes that stand for `value`.
pub open spec fn u32_bytes(value: u32, order: Endianness) -> Seq<u8> {
    let b0 = (value % 0x100) as u8;
    let b1 = (value / 0x100 % 0x100) as u8;
    let b2 = (value / 0x1_0000 % 0x100) as u8;
    let b3 = (value / 0x100_0000) as u8;
    match order {
        Endianness::Little => seq![b0, b1, b2, b3],
        Endianness::Big => seq![b3, b2, b1, b0],
    }
}

/// Reads the two bytes of `data` that start at `at`.
pub fn read_u16(data: &[u8], at: usize, order: Endianness) -> (value: u16)
    requires
        at + 2 <= data@.len(),
    ensures
        value == u16_of(data@.subrange(at as int, at + 2), order),
{
    let first: u16 = data[at] as u16;
    let second: u16 = data[at + 1] as u16;
    match order {
        Endianness::Little => first + 0x100 * second,
        Endianness::Big => second + 0x100 * first,
    }
}

/// Reads the four bytes of `data` that start at `at`.
pub fn read_u32(data: &[u8], at: usize, order: Endianness) -> (value: u32)
    requires
        at + 4 <= data@.len(),
    ensures
        value == u32_of(data@.subrange(at as int, at + 4), order),
{
    let b0: u32 = data[at] as u32;
    let b1: u32 = data[at + 1] as u32;
    let b2: u32 = data[at + 2] as u32;
    let b3: u32 = data[at + 3] as u32;
    match order {
        Endianness::Little => b0 + 0x100 * b1 + 0x1_0000 * b2 + 0x100_0000 * b3,
        Endianness::Big => b3 + 0x100 * b2 + 0x1_0000 * b1 + 0x100_0000 * b0,
    }
}

/// Reads the two bytes of `data` that start at `at` as a signed integer.
pub fn read_i16(data: &[u8], at: usize, order: Endianness) -> (value: i16)
    requires
        at + 2 <= data@.len(),
    ensures
        value == signed16(u16_of(data@.subrange(at as int, at + 2), order)),
{
    let bits: u16 = read_u16(data, at, order);
    if bits < 0x8000 {
        bits as i16
    } else {
        (bits as i32 - 0x1_0000) as i16
    }
}

/// Reads the four bytes of `data` that start at `at` as a signed integer.
pub fn read_i32(data: &[u8], at: usize, order: Endianness) -> (value: i32)
    requires
        at + 4 <= data@.len(),
    ensures
        value == signed32(u32_of(data@.subrange(at as int, at + 4), order)),
{
    let bits: u32 = read_u32(data, at, order);
    if bits < 0x8000_0000 {
        bits as i32
    } else {
        (bits as i64 - 0x1_0000_0000) as i32
    }
}

/// Whether four bytes in the memory of this machine are read as `value`.
pub uninterp spec fn machine_reads(bytes: Seq<u8>, value: u32) -> bool;

/// The bytes by which the order of a machine is told.
pub open spec fn probe_bytes() -> Seq<u8> {
    seq![1u8, 0, 0, 0]
}

/// The order that a machine keeps when it reads the probe as `probe`.
pub open spec fn probed_order(probe: u32) -> Endianness {
    if probe == u32_of(probe_bytes(), Endianness::Little) {
        Endianness::Little
    } else {
        Endianness::Big
    }
}

/// Whether this machine keeps the given order: it is the one that its reading
/// of the probe shows.
pub open spec fn is_host_order(order: Endianness) -> bool {
    exists|probe: u32| #[trigger]
        machine_reads(probe_bytes(), probe) && order == probed_order(probe)
}

/// `u32::from_ne_bytes`: the integer that four bytes stand for in the memory
/// of this machine. The machine stores integers in one of the two orders;
/// which one it is, the contract leaves open.
#[verifier::external_body]
fn u32_from_ne_bytes(bytes: [u8; 4]) -> (value: u32)
    ensures
        machine_reads(bytes@, value),
        value == u32_of(bytes@, Endianness::Little) || value == u32_of(bytes@, Endianness::Big),
{
    u32::from_ne_bytes(bytes)
}

/// The order that a machine keeps when it reads the bytes 1, 0, 0, 0 as
/// `probe`.
pub fn order_of_probe(probe: u32) -> (order: Endianness)
    ensures
        order == probed_order(probe),
{
    if probe == 1 {
        Endianness::Little
    } else {
        Endianness::Big
    }
}

/// The byte order of this machine, as its reading of the probe shows it. Which
/// of the two it is stays open: what depends on it takes it as an argument.
pub fn host_endianness() -> (order: Endianness)
    ensures
        is_host_order(order),
{
    let bytes: [u8; 4] = [1, 0, 0, 0];
    assert(bytes@ == probe_bytes());
    order_of_probe(u32_from_ne_bytes(bytes))
}

/// Law: reading back the bytes of an integer, in the order in which they
/// were written, gives the integer.
pub proof fn law_u16_round_trip(value: u16, order: Endianness)
    ensures
        u16_bytes(value, order).len() == 2,
        u16_of(u16_bytes(value, order), order) == value,
{
}

/// Law: reading back the bytes of an integer, in the order in which they
/// were written, gives the integer.
pub proof fn law_u32_round_trip(value: u32, order: Endianness)
    ensures
        u32_bytes(value, order).len() == 4,
        u32_of(u32_bytes(value, order), order) == value,
{
}

} // verus!
