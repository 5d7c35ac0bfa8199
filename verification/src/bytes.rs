//! Byte sequences for fixed-width integers in big- and little-endian
//! order, with proofs that the order is a reversal and that the value can
//! be read back from its bytes.

use vstd::prelude::*;

verus! {

/// The two bytes of `v`, most significant first.
pub open spec fn u16_be_bytes(v: u16) -> Seq<u8> {
    seq![((v >> 8) & 0xff) as u8, (v & 0xff) as u8]
}

/// The two bytes of `v`, least significant first.
pub open spec fn u16_le_bytes(v: u16) -> Seq<u8> {
    seq![(v & 0xff) as u8, ((v >> 8) & 0xff) as u8]
}

/// The four bytes of `v`, most significant first.
pub open spec fn u32_be_bytes(v: u32) -> Seq<u8> {
    seq![
        ((v >> 24) & 0xff) as u8,
        ((v >> 16) & 0xff) as u8,
        ((v >> 8) & 0xff) as u8,
        (v & 0xff) as u8,
    ]
}

/// The four bytes of `v`, least significant first.
pub open spec fn u32_le_bytes(v: u32) -> Seq<u8> {
    seq![
        (v & 0xff) as u8,
        ((v >> 8) & 0xff) as u8,
        ((v >> 16) & 0xff) as u8,
        ((v >> 24) & 0xff) as u8,
    ]
}

/// The eight bytes of `v`, most significant first.
pub open spec fn u64_be_bytes(v: u64) -> Seq<u8> {
    seq![
        ((v >> 56) & 0xff) as u8,
        ((v >> 48) & 0xff) as u8,
        ((v >> 40) & 0xff) as u8,
        ((v >> 32) & 0xff) as u8,
        ((v >> 24) & 0xff) as u8,
        ((v >> 16) & 0xff) as u8,
        ((v >> 8) & 0xff) as u8,
        (v & 0xff) as u8,
    ]
}

/// The eight bytes of `v`, least significant first.
pub open spec fn u64_le_bytes(v: u64) -> Seq<u8> {
    seq![
        (v & 0xff) as u8,
        ((v >> 8) & 0xff) as u8,
        ((v >> 16) & 0xff) as u8,
        ((v >> 24) & 0xff) as u8,
        ((v >> 32) & 0xff) as u8,
        ((v >> 40) & 0xff) as u8,
        ((v >> 48) & 0xff) as u8,
        ((v >> 56) & 0xff) as u8,
    ]
}

/// The value whose little-endian bytes are `b0` (least significant) and
/// `b1`.
pub open spec fn u16_of_le(b0: u8, b1: u8) -> u16 {
    (b0 as u16) | ((b1 as u16) << 8)
}

/// The value whose little-endian bytes are `b0` (least significant)
/// through `b3`.
pub open spec fn u32_of_le(b0: u8, b1: u8, b2: u8, b3: u8) -> u32 {
    (b0 as u32) | ((b1 as u32) << 8) | ((b2 as u32) << 16) | ((b3 as u32) << 24)
}

/// The value whose little-endian bytes are `b0` (least significant)
/// through `b7`.
pub open spec fn u64_of_le(
    b0: u8,
    b1: u8,
    b2: u8,
    b3: u8,
    b4: u8,
    b5: u8,
    b6: u8,
    b7: u8,
) -> u64 {
    (b0 as u64) | ((b1 as u64) << 8) | ((b2 as u64) << 16) | ((b3 as u64) << 24) | ((
    b4 as u64) << 32) | ((b5 as u64) << 40) | ((b6 as u64) << 48) | ((b7 as u64) << 56)
}

/// The big-endian bytes of a value are its little-endian bytes reversed,
/// at every width.
pub proof fn lemma_be_is_le_reversed(v16: u16, v32: u32, v64: u64)
    ensures
        u16_be_bytes(v16) == u16_le_bytes(v16).reverse(),
        u32_be_bytes(v32) == u32_le_bytes(v32).reverse(),
        u64_be_bytes(v64) == u64_le_bytes(v64).reverse(),
{
    assert(u16_be_bytes(v16) =~= u16_le_bytes(v16).reverse());
    assert(u32_be_bytes(v32) =~= u32_le_bytes(v32).reverse());
    assert(u64_be_bytes(v64) =~= u64_le_bytes(v64).reverse());
}

/// Reading a value back from its two little-endian bytes gives the value
/// that was encoded.
pub proof fn lemma_u16_le_round_trip(v: u16)
    ensures
        u16_of_le(u16_le_bytes(v)[0], u16_le_bytes(v)[1]) == v,
{
    assert(((v & 0xff) as u8 as u16) | ((((v >> 8) & 0xff) as u8 as u16) << 8) == v)
        by (bit_vector);
}

/// Reading a value back from its four little-endian bytes gives the value
/// that was encoded.
pub proof fn lemma_u32_le_round_trip(v: u32)
    ensures
        u32_of_le(
            u32_le_bytes(v)[0],
            u32_le_bytes(v)[1],
            u32_le_bytes(v)[2],
            u32_le_bytes(v)[3],
        ) == v,
{
    assert(((v & 0xff) as u8 as u32) | ((((v >> 8) & 0xff) as u8 as u32) << 8) | ((((v >> 16)
        & 0xff) as u8 as u32) << 16) | ((((v >> 24) & 0xff) as u8 as u32) << 24) == v)
        by (bit_vector);
}

/// Reading a value back from its eight little-endian bytes gives the value
/// that was encoded.
pub proof fn lemma_u64_le_round_trip(v: u64)
    ensures
        u64_of_le(
            u64_le_bytes(v)[0],
            u64_le_bytes(v)[1],
            u64_le_bytes(v)[2],
            u64_le_bytes(v)[3],
            u64_le_bytes(v)[4],
            u64_le_bytes(v)[5],
            u64_le_bytes(v)[6],
            u64_le_bytes(v)[7],
        ) == v,
{
    assert(((v & 0xff) as u8 as u64) | ((((v >> 8) & 0xff) as u8 as u64) << 8) | ((((v >> 16)
        & 0xff) as u8 as u64) << 16) | ((((v >> 24) & 0xff) as u8 as u64) << 24) | ((((v >> 32)
        & 0xff) as u8 as u64) << 32) | ((((v >> 40) & 0xff) as u8 as u64) << 40) | ((((v >> 48)
        & 0xff) as u8 as u64) << 48) | ((((v >> 56) & 0xff) as u8 as u64) << 56) == v)
        by (bit_vector);
}

} // verus!
