//! Unsigned integers as little-endian bytes: the byte at place `i` counts
//! `256^i`.

use vstd::prelude::*;

verus! {

/// The value of four bytes in little-endian order.
pub open spec fn spec_u32_from_le(bytes: Seq<u8>) -> u32
    recommends
        bytes.len() == 4,
{
    (bytes[0] + bytes[1] * 0x100 + bytes[2] * 0x1_0000 + bytes[3] * 0x100_0000) as u32
}

/// The four bytes of a value, the lowest first.
pub open spec fn spec_u32_to_le(value: u32) -> Seq<u8> {
    seq![
        (value % 0x100) as u8,
        (value / 0x100 % 0x100) as u8,
        (value / 0x1_0000 % 0x100) as u8,
        (value / 0x100_0000 % 0x100) as u8,
    ]
}

/// The value of eight bytes in little-endian order.
pub open spec fn spec_u64_from_le(bytes: Seq<u8>) -> u64
    recommends
        bytes.len() == 8,
{
    (bytes[0] + bytes[1] * 0x100 + bytes[2] * 0x1_0000 + bytes[3] * 0x100_0000 + bytes[4]
        * 0x1_0000_0000 + bytes[5] * 0x100_0000_0000 + bytes[6] * 0x1_0000_0000_0000 + bytes[7]
        * 0x100_0000_0000_0000) as u64
}

/// The eight bytes of a value, the lowest first.
pub open spec fn spec_u64_to_le(value: u64) -> Seq<u8> {
    seq![
        (value % 0x100) as u8,
        (value / 0x100 % 0x100) as u8,
        (value / 0x1_0000 % 0x100) as u8,
        (value / 0x100_0000 % 0x100) as u8,
        (value / 0x1_0000_0000 % 0x100) as u8,
        (value / 0x100_0000_0000 % 0x100) as u8,
        (value / 0x1_0000_0000_0000 % 0x100) as u8,
        (value / 0x100_0000_0000_0000 % 0x100) as u8,
    ]
}

/// Reads the 32-bit value whose four little-endian bytes start at `at`, if
/// the input holds that many.
pub fn read_u32_le(input: &[u8], at: usize) -> (value: Option<u32>)
    ensures
        value == if at + 4 <= input@.len() {
            Some(spec_u32_from_le(input@.subrange(at as int, at + 4)))
        } else {
            None
        },
{
    if input.len() < 4 || at > input.len() - 4 {
        return None;
    }
    Some(
        input[at] as u32 + input[at + 1] as u32 * 0x100 + input[at + 2] as u32 * 0x1_0000
            + input[at + 3] as u32 * 0x100_0000,
    )
}

/// Writes a 32-bit value as four little-endian bytes.
pub fn u32_to_le(value: u32) -> (bytes: [u8; 4])
    ensures
        bytes@ == spec_u32_to_le(value),
{
    let bytes = [
        (value % 0x100) as u8,
        (value / 0x100 % 0x100) as u8,
        (value / 0x1_0000 % 0x100) as u8,
        (value / 0x100_0000 % 0x100) as u8,
    ];
    assert(bytes@ =~= spec_u32_to_le(value));
    bytes
}

/// Reads the 64-bit value whose eight little-endian bytes start at `at`, if
/// the input holds that many.
pub fn read_u64_le(input: &[u8], at: usize) -> (value: Option<u64>)
    ensures
        value == if at + 8 <= input@.len() {
            Some(spec_u64_from_le(input@.subrange(at as int, at + 8)))
        } else {
            None
        },
{
    if input.len() < 8 || at > input.len() - 8 {
        return None;
    }
    Some(
        input[at] as u64 + input[at + 1] as u64 * 0x100 + input[at + 2] as u64 * 0x1_0000
            + input[at + 3] as u64 * 0x100_0000 + input[at + 4] as u64 * 0x1_0000_0000
            + input[at + 5] as u64 * 0x100_0000_0000 + input[at + 6] as u64
            * 0x1_0000_0000_0000 + input[at + 7] as u64 * 0x100_0000_0000_0000,
    )
}

/// Writes a 64-bit value as eight little-endian bytes.
pub fn u64_to_le(value: u64) -> (bytes: [u8; 8])
    ensures
        bytes@ == spec_u64_to_le(value),
{
    let bytes = [
        (value % 0x100) as u8,
        (value / 0x100 % 0x100) as u8,
        (value / 0x1_0000 % 0x100) as u8,
        (value / 0x100_0000 % 0x100) as u8,
        (value / 0x1_0000_0000 % 0x100) as u8,
        (value / 0x100_0000_0000 % 0x100) as u8,
        (value / 0x1_0000_0000_0000 % 0x100) as u8,
        (value / 0x100_0000_0000_0000 % 0x100) as u8,
    ];
    assert(bytes@ =~= spec_u64_to_le(value));
    bytes
}

/// A 32-bit value is read back from its bytes.
pub proof fn lemma_u32_le_roundtrip(value: u32)
    ensures
        spec_u32_to_le(value).len() == 4,
        spec_u32_from_le(spec_u32_to_le(value)) == value,
{
    assert(value == (value % 0x100) + (value / 0x100 % 0x100) * 0x100 + (value / 0x1_0000 % 0x100)
        * 0x1_0000 + (value / 0x100_0000 % 0x100) * 0x100_0000) by (bit_vector);
}

/// A 64-bit value is read back from its bytes.
pub proof fn lemma_u64_le_roundtrip(value: u64)
    ensures
        spec_u64_to_le(value).len() == 8,
        spec_u64_from_le(spec_u64_to_le(value)) == value,
{
    assert(value == (value % 0x100) + (value / 0x100 % 0x100) * 0x100 + (value / 0x1_0000 % 0x100)
        * 0x1_0000 + (value / 0x100_0000 % 0x100) * 0x100_0000 + (value / 0x1_0000_0000 % 0x100)
        * 0x1_0000_0000 + (value / 0x100_0000_0000 % 0x100) * 0x100_0000_0000 + (value
        / 0x1_0000_0000_0000 % 0x100) * 0x1_0000_0000_0000 + (value / 0x100_0000_0000_0000
        % 0x100) * 0x100_0000_0000_0000) by (bit_vector);
}

/// Four bytes are the bytes of their value.
pub proof fn lemma_u32_le_bytes(bytes: Seq<u8>)
    requires
        bytes.len() == 4,
    ensures
        spec_u32_to_le(spec_u32_from_le(bytes)) == bytes,
{
    let b0 = bytes[0];
    let b1 = bytes[1];
    let b2 = bytes[2];
    let b3 = bytes[3];
    let value = spec_u32_from_le(bytes);
    assert(value == b0 + b1 * 0x100 + b2 * 0x1_0000 + b3 * 0x100_0000);
    assert(value == b0 + b1 * 0x100 + b2 * 0x1_0000 + b3 * 0x100_0000 ==> value % 0x100 == b0
        && value / 0x100 % 0x100 == b1 && value / 0x1_0000 % 0x100 == b2 && value / 0x100_0000
        % 0x100 == b3) by (bit_vector);
    assert(spec_u32_to_le(value) =~= bytes);
}

/// Eight bytes are the bytes of their value.
pub proof fn lemma_u64_le_bytes(bytes: Seq<u8>)
    requires
        bytes.len() == 8,
    ensures
        spec_u64_to_le(spec_u64_from_le(bytes)) == bytes,
{
    let b0 = bytes[0];
    let b1 = bytes[1];
    let b2 = bytes[2];
    let b3 = bytes[3];
    let b4 = bytes[4];
    let b5 = bytes[5];
    let b6 = bytes[6];
    let b7 = bytes[7];
    let value = spec_u64_from_le(bytes);
    assert(value == b0 + b1 * 0x100 + b2 * 0x1_0000 + b3 * 0x100_0000 + b4 * 0x1_0000_0000 + b5
        * 0x100_0000_0000 + b6 * 0x1_0000_0000_0000 + b7 * 0x100_0000_0000_0000);
    assert(value == b0 + b1 * 0x100 + b2 * 0x1_0000 + b3 * 0x100_0000 + b4 * 0x1_0000_0000 + b5
        * 0x100_0000_0000 + b6 * 0x1_0000_0000_0000 + b7 * 0x100_0000_0000_0000 ==> value % 0x100
        == b0 && value / 0x100 % 0x100 == b1 && value / 0x1_0000 % 0x100 == b2 && value
        / 0x100_0000 % 0x100 == b3 && value / 0x1_0000_0000 % 0x100 == b4 && value
        / 0x100_0000_0000 % 0x100 == b5 && value / 0x1_0000_0000_0000 % 0x100 == b6 && value
        / 0x100_0000_0000_0000 % 0x100 == b7) by (bit_vector);
    assert(spec_u64_to_le(value) =~= bytes);
}

} // verus!
