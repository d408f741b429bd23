//! Parser for the F Prime data product container format.
//!
//! This is the payload of a `.fdp` bucket object.
//!
//! ```text
//! 0     packet descriptor   U16    5 = FW_PACKET_DP
//! 2     container id        U32    component base id + container id
//! 6     priority            U32
//! 10    time tag            11     timeBase U16, context U8, seconds U32, useconds U32
//! 21    proc types          U8     bitmask; 0=NONE 1=ZLIB_DEFLATE 2=ONE 4=TWO
//! 22    user data           32     CONTAINER_USER_DATA_SIZE, project-defined
//! 54    dp state            U8     0=UNTRANSMITTED 1=PARTIAL 2=TRANSMITTED
//! 55    data size           U16    length of the record area
//! 57    header hash         4      CRC32
//! 61    records              dataSize bytes
//! 61+n  data hash           4      CRC32
//! ```
//! All integers big-endian.

use vstd::prelude::*;

use crate::big_endian::{
    be16, be16_bytes, be32, be32_bytes, lemma_be16_reads_back, lemma_be32_reads_back, read_be16,
    read_be32,
};

verus! {

/// Size of the project-defined user data region.
pub const CONTAINER_USER_DATA_SIZE: usize = 32;

/// Offset and size of the fixed header, before the header hash.
pub const HEADER_SIZE: usize = 57;

/// Size of a CRC32 hash.
pub const HASH_SIZE: usize = 4;

/// F Prime data product descriptor value, per `ComCfg.fpp` (`FW_PACKET_DP`).
pub const DP_DESCRIPTOR: u16 = 5;

/// Data product transmission state, from the container header.
#[derive(Debug, Clone, Copy, PartialEq, Eq, Structural)]
pub enum DpState {
    Untransmitted,
    Partial,
    Transmitted,
    /// Any value not in the above set. Kept rather than erroring, since this is metadata, not
    /// something that should block parsing.
    Unknown(u8),
}

/// The state that a header byte stands for.
pub open spec fn dp_state_of(value: u8) -> DpState {
    if value == 0 {
        DpState::Untransmitted
    } else if value == 1 {
        DpState::Partial
    } else if value == 2 {
        DpState::Transmitted
    } else {
        DpState::Unknown(value)
    }
}

impl vstd::std_specs::convert::FromSpecImpl<u8> for DpState {
    open spec fn obeys_from_spec() -> bool {
        true
    }

    open spec fn from_spec(value: u8) -> DpState {
        dp_state_of(value)
    }
}

impl From<u8> for DpState {
    fn from(value: u8) -> (state: Self) {
        match value {
            0 => DpState::Untransmitted,
            1 => DpState::Partial,
            2 => DpState::Transmitted,
            other => DpState::Unknown(other),
        }
    }
}

/// A parsed data product container header (the fixed-size portion; record bytes are not
/// copied out).
#[derive(Debug, Clone, PartialEq, Eq)]
pub struct DpContainerHeader {
    pub descriptor: u16,
    pub container_id: u32,
    pub priority: u32,
    pub time_base: u16,
    pub time_context: u8,
    pub seconds: u32,
    pub useconds: u32,
    pub proc_types: u8,
    pub user_data: [u8; CONTAINER_USER_DATA_SIZE],
    pub dp_state: DpState,
    pub data_size: u16,
    pub header_hash: u32,
}

/// `header` holds what the container layout puts in the bytes of `data`.
pub open spec fn is_header_of(header: DpContainerHeader, data: Seq<u8>) -> bool {
    &&& header.descriptor == be16(data, 0)
    &&& header.container_id == be32(data, 2)
    &&& header.priority == be32(data, 6)
    &&& header.time_base == be16(data, 10)
    &&& header.time_context == data[12]
    &&& header.seconds == be32(data, 13)
    &&& header.useconds == be32(data, 17)
    &&& header.proc_types == data[21]
    &&& header.user_data@ == data.subrange(22, 54)
    &&& header.dp_state == dp_state_of(data[54])
    &&& header.data_size == be16(data, 55)
    &&& header.header_hash == be32(data, 57)
}

/// Parse just the header of a `.fdp` container (57 bytes plus its CRC32, 61 bytes total).
/// Does not validate the header hash or touch the record area.
pub fn parse_header(data: &[u8]) -> (parsed: Option<DpContainerHeader>)
    ensures
        parsed is None <==> data@.len() < 61,
        parsed matches Some(header) ==> is_header_of(header, data@),
{
    if data.len() < HEADER_SIZE + HASH_SIZE {
        return None;
    }
    let mut user_data: [u8; CONTAINER_USER_DATA_SIZE] = [0u8; CONTAINER_USER_DATA_SIZE];
    let mut i: usize = 0;
    while i < CONTAINER_USER_DATA_SIZE
        invariant
            i <= CONTAINER_USER_DATA_SIZE,
            data@.len() >= 61,
            forall|j: int| 0 <= j < i ==> user_data@[j] == data@[22 + j],
        decreases CONTAINER_USER_DATA_SIZE - i,
    {
        user_data[i] = data[22 + i];
        i += 1;
    }
    assert(user_data@ =~= data@.subrange(22, 54));
    Some(
        DpContainerHeader {
            descriptor: read_be16(data, 0),
            container_id: read_be32(data, 2),
            priority: read_be32(data, 6),
            time_base: read_be16(data, 10),
            time_context: data[12],
            seconds: read_be32(data, 13),
            useconds: read_be32(data, 17),
            proc_types: data[21],
            user_data,
            dp_state: DpState::from(data[54]),
            data_size: read_be16(data, 55),
            header_hash: read_be32(data, 57),
        },
    )
}

/// Number of records in the record area, given a fixed per-record size. F Prime data products
/// don't self-describe a record count in the header (only total byte size), so the caller must
/// supply the record layout's size in bytes; this just does the division and reports whether
/// it was exact.
pub fn record_count(data_size: u16, record_size: u16) -> (count: Option<u32>)
    ensures
        count is Some <==> record_size != 0 && data_size as int % record_size as int == 0,
        count matches Some(n) ==> n * record_size == data_size,
{
    if record_size == 0 || data_size % record_size != 0 {
        return None;
    }
    let n: u32 = data_size as u32 / record_size as u32;
    proof {
        vstd::arithmetic::div_mod::lemma_fundamental_div_mod(
            data_size as int,
            record_size as int,
        );
        vstd::arithmetic::mul::lemma_mul_is_commutative(n as int, record_size as int);
    }
    Some(n)
}

/// Validate the container's total length against `data_size`: `57 + 4 + dataSize + 4`.
pub fn expected_total_len(data_size: u16) -> (len: usize)
    ensures
        len == 57 + 4 + data_size + 4,
{
    HEADER_SIZE + HASH_SIZE + data_size as usize + HASH_SIZE
}

/// The header byte that stands for `state`.
pub open spec fn dp_state_byte(state: DpState) -> u8 {
    match state {
        DpState::Untransmitted => 0,
        DpState::Partial => 1,
        DpState::Transmitted => 2,
        DpState::Unknown(value) => value,
    }
}

/// The bytes of a container up to and with the header hash.
pub open spec fn header_bytes(header: DpContainerHeader) -> Seq<u8> {
    be16_bytes(header.descriptor) + be32_bytes(header.container_id) + be32_bytes(header.priority)
        + be16_bytes(header.time_base) + seq![header.time_context] + be32_bytes(header.seconds)
        + be32_bytes(header.useconds) + seq![header.proc_types] + header.user_data@
        + seq![dp_state_byte(header.dp_state)] + be16_bytes(header.data_size) + be32_bytes(
        header.header_hash,
    )
}

/// No state byte is lost: each can be read off the state that it was parsed to.
pub proof fn lemma_dp_state_is_preserved(value: u8)
    ensures
        dp_state_byte(dp_state_of(value)) == value,
{
}

/// A header that was laid out in front of any records is the one that is parsed.
pub proof fn lemma_header_reads_back(header: DpContainerHeader, rest: Seq<u8>)
    requires
        header.dp_state matches DpState::Unknown(value) ==> value > 2,
    ensures
        header_bytes(header).len() == HEADER_SIZE + HASH_SIZE,
        is_header_of(header, header_bytes(header) + rest),
{
    let data = header_bytes(header) + rest;
    assert(header.user_data@.len() == 32);
    assert(data.subrange(0, 2) =~= be16_bytes(header.descriptor));
    assert(data.subrange(2, 6) =~= be32_bytes(header.container_id));
    assert(data.subrange(6, 10) =~= be32_bytes(header.priority));
    assert(data.subrange(10, 12) =~= be16_bytes(header.time_base));
    assert(data.subrange(13, 17) =~= be32_bytes(header.seconds));
    assert(data.subrange(17, 21) =~= be32_bytes(header.useconds));
    assert(data.subrange(22, 54) =~= header.user_data@);
    assert(data.subrange(55, 57) =~= be16_bytes(header.data_size));
    assert(data.subrange(57, 61) =~= be32_bytes(header.header_hash));
    lemma_be16_reads_back(data, 0, header.descriptor);
    lemma_be32_reads_back(data, 2, header.container_id);
    lemma_be32_reads_back(data, 6, header.priority);
    lemma_be16_reads_back(data, 10, header.time_base);
    lemma_be32_reads_back(data, 13, header.seconds);
    lemma_be32_reads_back(data, 17, header.useconds);
    lemma_be16_reads_back(data, 55, header.data_size);
    lemma_be32_reads_back(data, 57, header.header_hash);
}

/// At most one header is that of given bytes, and it depends on the first 61 of them alone:
/// neither the records nor the data hash have a part in it.
pub proof fn lemma_header_is_determined_by_its_bytes(
    first: DpContainerHeader,
    second: DpContainerHeader,
    first_data: Seq<u8>,
    second_data: Seq<u8>,
)
    requires
        first_data.len() >= HEADER_SIZE + HASH_SIZE,
        second_data.len() >= HEADER_SIZE + HASH_SIZE,
        first_data.take(61) == second_data.take(61),
        is_header_of(first, first_data),
        is_header_of(second, second_data),
    ensures
        first == second,
{
    assert forall|i: int| 0 <= i < 61 implies first_data[i] == second_data[i] by {
        assert(first_data.take(61)[i] == first_data[i]);
        assert(second_data.take(61)[i] == second_data[i]);
    }
    assert(first_data.subrange(22, 54) =~= second_data.subrange(22, 54));
    assert(first.user_data =~= second.user_data) by {
        assert forall|i: int| 0 <= i < 32 implies first.user_data[i] == second.user_data[i] by {
            assert(first.user_data@[i] == second.user_data@[i]);
        }
    }
}

} // verus!
