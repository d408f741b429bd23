//! Data product containers.

use vstd::prelude::*;

use crate::dp_container::{
    expected_total_len, parse_header, record_count, DpContainerHeader, DpState,
};
use crate::laws::packet::four_bytes;

verus! {

/// A header is parsed exactly where its 61 bytes are there, and each field says what its own bytes
/// say, most significant first.
pub proof fn law_header_fields(data: &[u8], parsed: Option<DpContainerHeader>)
    requires
        call_ensures(parse_header, (data,), parsed),
    ensures
        data@.len() < 61 ==> parsed is None,
        data@.len() >= 61 ==> {
            &&& parsed matches Some(header)
            &&& header.descriptor == data@[0] * 0x100 + data@[1]
            &&& header.container_id == four_bytes(data@[2], data@[3], data@[4], data@[5])
            &&& header.priority == four_bytes(data@[6], data@[7], data@[8], data@[9])
            &&& header.time_base == data@[10] * 0x100 + data@[11]
            &&& header.time_context == data@[12]
            &&& header.seconds == four_bytes(data@[13], data@[14], data@[15], data@[16])
            &&& header.useconds == four_bytes(data@[17], data@[18], data@[19], data@[20])
            &&& header.proc_types == data@[21]
            &&& forall|i: int| 0 <= i < 32 ==> #[trigger] header.user_data@[i] == data@[22 + i]
            &&& header.data_size == data@[55] * 0x100 + data@[56]
            &&& header.header_hash == four_bytes(data@[57], data@[58], data@[59], data@[60])
        },
{
    if let Some(header) = parsed {
        assert forall|i: int| 0 <= i < 32 implies #[trigger] header.user_data@[i] == data@[22
            + i] by {
            assert(data@.subrange(22, 54)[i] == data@[22 + i]);
        }
    }
}

/// The state in a header is the one that byte 54 stands for.
pub proof fn law_header_state(data: &[u8], parsed: Option<DpContainerHeader>, state: DpState)
    requires
        call_ensures(parse_header, (data,), parsed),
        parsed is Some,
        call_ensures(<DpState as From<u8>>::from, (data@[54],), state),
    ensures
        parsed->0.dp_state == state,
{
}

/// The three known states have the bytes 0, 1 and 2, and every other byte is kept.
pub proof fn law_state_keeps_its_byte(value: u8, state: DpState)
    requires
        call_ensures(<DpState as From<u8>>::from, (value,), state),
    ensures
        state == DpState::Untransmitted <==> value == 0,
        state == DpState::Partial <==> value == 1,
        state == DpState::Transmitted <==> value == 2,
        value > 2 ==> state == DpState::Unknown(value),
{
}

/// There are `n` records exactly where `n` records of the size fill the record area. Without such
/// a number, or without a size, there is no count.
pub proof fn law_records_fill_the_area(
    data_size: u16,
    record_size: u16,
    count: Option<u32>,
    n: int,
)
    requires
        call_ensures(record_count, (data_size, record_size), count),
    ensures
        record_size > 0 && n * record_size == data_size <==> count is Some && count->0 == n,
        record_size == 0 ==> count is None,
        count matches Some(m) ==> m * record_size == data_size,
{
    if record_size > 0 && n * record_size == data_size {
        vstd::arithmetic::div_mod::lemma_fundamental_div_mod_converse(
            data_size as int,
            record_size as int,
            n,
            0,
        );
        let m = count->0 as int;
        assert(m == n) by (nonlinear_arith)
            requires
                m * record_size == n * record_size,
                record_size > 0,
        ;
    }
}

/// A container is 65 bytes longer than its record area.
pub proof fn law_total_len(data_size: u16, len: usize)
    requires
        call_ensures(expected_total_len, (data_size,), len),
    ensures
        len - data_size == 65,
{
}

} // verus!
