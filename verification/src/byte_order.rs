//! The two orders in which the four bytes of a header field can stand.

use vstd::prelude::*;

verus! {

/// The order of the bytes of a header field.
#[derive(Clone, Copy, Debug, PartialEq, Eq, Structural)]
pub enum ByteOrder {
    /// Least significant byte first.
    Little,
    /// Most significant byte first.
    Big,
}

/// The number that four bytes hold, least significant byte first.
pub open spec fn little_endian_value(bytes: Seq<u8>) -> int
    recommends
        bytes.len() == 4,
{
    bytes[0] + 0x100 * bytes[1] + 0x1_0000 * bytes[2] + 0x100_0000 * bytes[3]
}

/// The number that four bytes hold in the given order.
pub open spec fn u32_from_bytes(order: ByteOrder, bytes: Seq<u8>) -> int
    recommends
        bytes.len() == 4,
{
    match order {
        ByteOrder::Little => little_endian_value(bytes),
        ByteOrder::Big => little_endian_value(bytes.reverse()),
    }
}

/// The four bytes of a number, least significant byte first.
pub open spec fn little_endian_bytes(value: u32) -> Seq<u8> {
    seq![
        (value % 0x100) as u8,
        (value / 0x100 % 0x100) as u8,
        (value / 0x1_0000 % 0x100) as u8,
        (value / 0x100_0000) as u8,
    ]
}

/// The four bytes of a number in the given order.
pub open spec fn u32_to_bytes(order: ByteOrder, value: u32) -> Seq<u8> {
    match order {
        ByteOrder::Little => little_endian_bytes(value),
        ByteOrder::Big => little_endian_bytes(value).reverse(),
    }
}

/// The bytes by which the two orders are told apart: they hold 1 where the
/// least significant byte comes first, and another number where it comes
/// last.
pub open spec fn probe_bytes() -> Seq<u8> {
    seq![1u8, 0u8, 0u8, 0u8]
}

/// Four bytes hold a number that fits in 32 bits.
pub proof fn lemma_u32_from_bytes_fits(order: ByteOrder, bytes: Seq<u8>)
    requires
        bytes.len() == 4,
    ensures
        0 <= u32_from_bytes(order, bytes) <= u32::MAX,
{
}

/// Reading the bytes of a number gives the number back.
pub proof fn lemma_u32_to_from_bytes(order: ByteOrder, value: u32)
    ensures
        u32_to_bytes(order, value).len() == 4,
        u32_from_bytes(order, u32_to_bytes(order, value)) == value,
{
}

/// Writing the number that four bytes hold, least significant byte first,
/// gives the bytes back.
proof fn lemma_little_endian_from_to_bytes(bytes: Seq<u8>)
    requires
        bytes.len() == 4,
    ensures
        0 <= little_endian_value(bytes) <= u32::MAX,
        little_endian_bytes(little_endian_value(bytes) as u32) == bytes,
{
    let b0 = bytes[0] as int;
    let b1 = bytes[1] as int;
    let b2 = bytes[2] as int;
    let b3 = bytes[3] as int;
    let value = b0 + 0x100 * b1 + 0x1_0000 * b2 + 0x100_0000 * b3;
    assert(value == little_endian_value(bytes));
    assert(value % 0x100 == b0);
    assert(value / 0x100 == b1 + 0x100 * b2 + 0x1_0000 * b3);
    assert(value / 0x1_0000 == b2 + 0x100 * b3);
    assert(value / 0x100_0000 == b3);
    assert(little_endian_bytes(value as u32) =~= bytes);
}

/// Writing the number that four bytes hold gives the bytes back.
pub proof fn lemma_u32_from_to_bytes(order: ByteOrder, bytes: Seq<u8>)
    requires
        bytes.len() == 4,
    ensures
        u32_to_bytes(order, u32_from_bytes(order, bytes) as u32) == bytes,
{
    match order {
        ByteOrder::Little => {
            lemma_little_endian_from_to_bytes(bytes);
        },
        ByteOrder::Big => {
            lemma_little_endian_from_to_bytes(bytes.reverse());
            assert(bytes.reverse().reverse() =~= bytes);
        },
    }
}

impl ByteOrder {
    /// The order in which the probe bytes 1, 0, 0, 0 were read, given the
    /// number that came out: the order in which they hold that number. A
    /// number that they hold in neither order counts as read most
    /// significant byte first.
    pub fn of_probe(value: u32) -> (order: ByteOrder)
        ensures
            order == if value == u32_from_bytes(ByteOrder::Little, probe_bytes()) {
                ByteOrder::Little
            } else {
                ByteOrder::Big
            },
            value == u32_from_bytes(ByteOrder::Little, probe_bytes()) || value == u32_from_bytes(
                ByteOrder::Big,
                probe_bytes(),
            ) ==> u32_from_bytes(order, probe_bytes()) == value,
    {
        if value == 1 {
            ByteOrder::Little
        } else {
            ByteOrder::Big
        }
    }

    /// Reads the number that four bytes hold in this order.
    pub fn read_u32(self, bytes: &[u8]) -> (value: u32)
        requires
            bytes@.len() == 4,
        ensures
            value == u32_from_bytes(self, bytes@),
    {
        let b0: u32 = bytes[0] as u32;
        let b1: u32 = bytes[1] as u32;
        let b2: u32 = bytes[2] as u32;
        let b3: u32 = bytes[3] as u32;
        match self {
            ByteOrder::Little => b0 + 0x100 * b1 + 0x1_0000 * b2 + 0x100_0000 * b3,
            ByteOrder::Big => b3 + 0x100 * b2 + 0x1_0000 * b1 + 0x100_0000 * b0,
        }
    }

    /// Writes a number as four bytes in this order.
    pub fn write_u32(self, value: u32) -> (bytes: [u8; 4])
        ensures
            bytes@ == u32_to_bytes(self, value),
    {
        let b0: u8 = (value % 0x100) as u8;
        let b1: u8 = (value / 0x100 % 0x100) as u8;
        let b2: u8 = (value / 0x1_0000 % 0x100) as u8;
        let b3: u8 = (value / 0x100_0000) as u8;
        let bytes: [u8; 4] = match self {
            ByteOrder::Little => [b0, b1, b2, b3],
            ByteOrder::Big => [b3, b2, b1, b0],
        };
        assert(bytes@ =~= u32_to_bytes(self, value));
        bytes
    }
}

} // verus!
