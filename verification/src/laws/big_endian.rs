//! Big-endian integers.

use vstd::prelude::*;

use crate::big_endian::{read_be16, read_be32};

verus! {

/// Of two bytes the first weighs 256 times as much as the second.
pub proof fn law_two_bytes(bytes: &[u8], at: usize, value: u16)
    requires
        at + 2 <= bytes.len(),
        call_ensures(read_be16, (bytes, at), value),
    ensures
        value / 0x100 == bytes@[at as int],
        value % 0x100 == bytes@[at + 1],
{
}

/// Four bytes are two halves, of which the first weighs 65536 times as much as the second.
pub proof fn law_four_bytes(bytes: &[u8], at: usize, high: u16, low: u16, value: u32)
    requires
        at + 4 <= bytes.len(),
        call_ensures(read_be16, (bytes, at), high),
        call_ensures(read_be16, (bytes, (at + 2) as usize), low),
        call_ensures(read_be32, (bytes, at), value),
    ensures
        value / 0x1_0000 == high,
        value % 0x1_0000 == low,
{
    assert((at + 2) as usize == at + 2);
}

} // verus!
