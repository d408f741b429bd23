//! F Prime file packets.

use vstd::prelude::*;
use vstd::utf8::{decode_utf8, valid_utf8};

use crate::file_transfer::packet::{parse_file_frame, parse_file_packet, FileFrame, FilePacket};
use crate::outside::utf8_lossy;

verus! {

/// The integer that four bytes hold, most significant first.
pub open spec fn four_bytes(a: u8, b: u8, c: u8, d: u8) -> int {
    a * 0x100_0000 + b * 0x1_0000 + c * 0x100 + d
}

/// `text` is what the bytes say: decoded where they are valid UTF-8, and otherwise what
/// `String::from_utf8_lossy` makes of them.
pub open spec fn says(text: String, bytes: Seq<u8>) -> bool {
    if valid_utf8(bytes) {
        text@ == decode_utf8(bytes)
    } else {
        text@ == utf8_lossy(bytes)
    }
}

/// A packet that is not a file packet is passed over: the low eleven bits of its first word are
/// not the file APID, the word at bytes 6 and 7 is not the file descriptor, its type byte is none
/// of the four, or it ends before the sequence index does.
pub proof fn law_other_packets_are_passed_over(data: &[u8], parsed: Option<FilePacket>)
    requires
        call_ensures(parse_file_packet, (data,), parsed),
        ({
            ||| data@.len() < 13
            ||| data@[0] % 8 * 256 + data@[1] != 3
            ||| data@[6] != 0
            ||| data@[7] != 3
            ||| data@[8] > 3
        }),
    ensures
        parsed is None,
{
}

/// A START packet is parsed exactly where its two length-prefixed paths are complete, and it says
/// what its bytes say: the sequence index at 9, the file size at 13, the length of the source path
/// at 17, the source path, the length of the destination path, and the destination path.
pub proof fn law_start_packet(data: &[u8], parsed: Option<FilePacket>)
    requires
        call_ensures(parse_file_packet, (data,), parsed),
        data@.len() >= 13,
        data@[0] % 8 * 256 + data@[1] == 3,
        data@[6] == 0 && data@[7] == 3,
        data@[8] == 0,
    ensures
        ({
            let source_end = 18 + data@[17];
            let end = source_end + 1 + data@[source_end];
            if data@.len() < 18 || data@.len() < source_end + 1 || data@.len() < end {
                parsed is None
            } else {
                &&& parsed matches Some(
                    FilePacket::Start { sequence_index, total_size, source_path, destination_path },
                )
                &&& sequence_index == four_bytes(data@[9], data@[10], data@[11], data@[12])
                &&& total_size == four_bytes(data@[13], data@[14], data@[15], data@[16])
                &&& says(source_path, data@.subrange(18, source_end))
                &&& says(destination_path, data@.subrange(source_end + 1, end))
            }
        }),
{
    let body = data@.skip(13);
    let source_end = 18 + data@[17];
    let end = source_end + 1 + data@[source_end];
    if data@.len() >= 18 {
        assert(body[4] == data@[17]);
        if data@.len() >= source_end + 1 {
            assert(body[source_end - 13] == data@[source_end]);
            if data@.len() >= end {
                assert(body.subrange(5, source_end - 13) =~= data@.subrange(18, source_end));
                assert(body.subrange(source_end - 12, end - 13) =~= data@.subrange(
                    source_end + 1,
                    end,
                ));
            }
        }
    }
}

/// A DATA packet is parsed exactly where its offset and its length are complete, and it says what
/// its bytes say: the sequence index at 9, the offset at 13 and the length at 17.
pub proof fn law_data_packet(data: &[u8], parsed: Option<FilePacket>)
    requires
        call_ensures(parse_file_packet, (data,), parsed),
        data@.len() >= 13,
        data@[0] % 8 * 256 + data@[1] == 3,
        data@[6] == 0 && data@[7] == 3,
        data@[8] == 1,
    ensures
        if data@.len() < 19 {
            parsed is None
        } else {
            &&& parsed matches Some(FilePacket::Data { sequence_index, offset, length })
            &&& sequence_index == four_bytes(data@[9], data@[10], data@[11], data@[12])
            &&& offset == four_bytes(data@[13], data@[14], data@[15], data@[16])
            &&& length == data@[17] * 0x100 + data@[18]
        },
{
}

/// An END packet is parsed exactly where its checksum is complete, and it says what its bytes say:
/// the sequence index at 9 and the checksum at 13.
pub proof fn law_end_packet(data: &[u8], parsed: Option<FilePacket>)
    requires
        call_ensures(parse_file_packet, (data,), parsed),
        data@.len() >= 13,
        data@[0] % 8 * 256 + data@[1] == 3,
        data@[6] == 0 && data@[7] == 3,
        data@[8] == 2,
    ensures
        if data@.len() < 17 {
            parsed is None
        } else {
            &&& parsed matches Some(FilePacket::End { sequence_index, checksum })
            &&& sequence_index == four_bytes(data@[9], data@[10], data@[11], data@[12])
            &&& checksum == four_bytes(data@[13], data@[14], data@[15], data@[16])
        },
{
}

/// A CANCEL packet is parsed, and it says its sequence index.
pub proof fn law_cancel_packet(data: &[u8], parsed: Option<FilePacket>)
    requires
        call_ensures(parse_file_packet, (data,), parsed),
        data@.len() >= 13,
        data@[0] % 8 * 256 + data@[1] == 3,
        data@[6] == 0 && data@[7] == 3,
        data@[8] == 3,
    ensures
        parsed matches Some(FilePacket::Cancel { sequence_index }) && sequence_index == four_bytes(
            data@[9],
            data@[10],
            data@[11],
            data@[12],
        ),
{
}

/// The frame of a packet has the fields that the packet has, with the bytes that its paths were
/// read from.
pub proof fn law_frame_has_the_fields_of_the_packet(
    data: &[u8],
    framed: Option<FileFrame<'_>>,
    parsed: Option<FilePacket>,
)
    requires
        call_ensures(parse_file_frame, (data,), framed),
        call_ensures(parse_file_packet, (data,), parsed),
    ensures
        match framed {
            None => parsed is None,
            Some(FileFrame::Start { sequence_index, total_size, source_path, destination_path }) => {
                &&& parsed matches Some(
                    FilePacket::Start {
                        sequence_index: index,
                        total_size: size,
                        source_path: source,
                        destination_path: destination,
                    },
                )
                &&& index == sequence_index && size == total_size
                &&& says(source, source_path@)
                &&& says(destination, destination_path@)
            },
            Some(FileFrame::Data { sequence_index, offset, length }) => parsed == Some(
                FilePacket::Data { sequence_index, offset, length },
            ),
            Some(FileFrame::End { sequence_index, checksum }) => parsed == Some(
                FilePacket::End { sequence_index, checksum },
            ),
            Some(FileFrame::Cancel { sequence_index }) => parsed == Some(
                FilePacket::Cancel { sequence_index },
            ),
        },
{
}

} // verus!
