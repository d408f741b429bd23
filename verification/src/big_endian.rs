//! Unsigned big-endian integers inside a byte sequence.

use vstd::prelude::*;

verus! {

/// The 16-bit big-endian integer that starts at byte `at`.
pub open spec fn be16(bytes: Seq<u8>, at: int) -> int {
    bytes[at] * 0x100 + bytes[at + 1]
}

/// The 32-bit big-endian integer that starts at byte `at`.
pub open spec fn be32(bytes: Seq<u8>, at: int) -> int {
    be16(bytes, at) * 0x1_0000 + be16(bytes, at + 2)
}

/// The two bytes that hold `value`, most significant first.
pub open spec fn be16_bytes(value: u16) -> Seq<u8> {
    seq![(value / 0x100) as u8, (value % 0x100) as u8]
}

/// The four bytes that hold `value`, most significant first.
pub open spec fn be32_bytes(value: u32) -> Seq<u8> {
    be16_bytes((value / 0x1_0000) as u16) + be16_bytes((value % 0x1_0000) as u16)
}

/// Read the 16-bit big-endian integer that starts at byte `at`.
pub fn read_be16(bytes: &[u8], at: usize) -> (value: u16)
    requires
        at + 2 <= bytes.len(),
    ensures
        value == be16(bytes@, at as int),
{
    bytes[at] as u16 * 0x100 + bytes[at + 1] as u16
}

/// Read the 32-bit big-endian integer that starts at byte `at`.
pub fn read_be32(bytes: &[u8], at: usize) -> (value: u32)
    requires
        at + 4 <= bytes.len(),
    ensures
        value == be32(bytes@, at as int),
{
    read_be16(bytes, at) as u32 * 0x1_0000 + read_be16(bytes, at + 2) as u32
}

/// Reading a 16-bit integer gives back the one that was laid out there.
pub proof fn lemma_be16_reads_back(bytes: Seq<u8>, at: int, value: u16)
    requires
        0 <= at,
        at + 2 <= bytes.len(),
        bytes.subrange(at, at + 2) == be16_bytes(value),
    ensures
        be16(bytes, at) == value,
{
    assert(bytes[at] == bytes.subrange(at, at + 2)[0]);
    assert(bytes[at + 1] == bytes.subrange(at, at + 2)[1]);
}

/// Reading a 32-bit integer gives back the one that was laid out there.
pub proof fn lemma_be32_reads_back(bytes: Seq<u8>, at: int, value: u32)
    requires
        0 <= at,
        at + 4 <= bytes.len(),
        bytes.subrange(at, at + 4) == be32_bytes(value),
    ensures
        be32(bytes, at) == value,
{
    let field = bytes.subrange(at, at + 4);
    assert(bytes.subrange(at, at + 2) =~= field.subrange(0, 2));
    assert(bytes.subrange(at + 2, at + 4) =~= field.subrange(2, 4));
    assert(field.subrange(0, 2) =~= be16_bytes((value / 0x1_0000) as u16));
    assert(field.subrange(2, 4) =~= be16_bytes((value % 0x1_0000) as u16));
    lemma_be16_reads_back(bytes, at, (value / 0x1_0000) as u16);
    lemma_be16_reads_back(bytes, at + 2, (value % 0x1_0000) as u16);
}

} // verus!
