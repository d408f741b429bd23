//! F Prime file downlink packets.
//!
//! ```text
//! [0:2]   CCSDS packet id      APID in the low 11 bits (3 = FILE)
//! [6:8]   F Prime descriptor   U16, 3 = FILE
//! [8]     FilePacketType       0=START 1=DATA 2=END 3=CANCEL
//! [9:13]  SequenceIndex        U32
//! [13:]   body
//! ```
//! All integers are big-endian.

use vstd::prelude::*;
use vstd::slice::slice_subrange;
use vstd::utf8::{encode_utf8, encode_utf8_decode_utf8, encode_utf8_valid_utf8};

use crate::big_endian::{
    be16, be16_bytes, be32, be32_bytes, lemma_be16_reads_back, lemma_be32_reads_back, read_be16,
    read_be32,
};
use crate::outside::{from_utf8_lossy, lossy_text};

verus! {

/// F Prime file downlink APID, per `ComCfg.fpp`.
pub const FILE_APID: u16 = 3;

/// F Prime file descriptor value carried in bytes `[6:8]` of a file packet.
pub const FILE_DESCRIPTOR: u16 = 3;

/// Parsed header of an F Prime file downlink packet (APID 3, descriptor 3).
#[derive(Debug, Clone, PartialEq, Eq)]
pub enum FilePacket {
    Start { sequence_index: u32, total_size: u32, source_path: String, destination_path: String },
    Data { sequence_index: u32, offset: u32, length: u16 },
    End { sequence_index: u32, checksum: u32 },
    Cancel { sequence_index: u32 },
}

/// What a file packet says.
pub enum FilePacketView {
    Start {
        sequence_index: u32,
        total_size: u32,
        source_path: Seq<char>,
        destination_path: Seq<char>,
    },
    Data { sequence_index: u32, offset: u32, length: u16 },
    End { sequence_index: u32, checksum: u32 },
    Cancel { sequence_index: u32 },
}

impl View for FilePacket {
    type V = FilePacketView;

    open spec fn view(&self) -> FilePacketView {
        match *self {
            FilePacket::Start { sequence_index, total_size, source_path, destination_path } => {
                FilePacketView::Start {
                    sequence_index,
                    total_size,
                    source_path: source_path@,
                    destination_path: destination_path@,
                }
            },
            FilePacket::Data { sequence_index, offset, length } => FilePacketView::Data {
                sequence_index,
                offset,
                length,
            },
            FilePacket::End { sequence_index, checksum } => FilePacketView::End {
                sequence_index,
                checksum,
            },
            FilePacket::Cancel { sequence_index } => FilePacketView::Cancel { sequence_index },
        }
    }
}

/// The fields of a file packet, with the paths of a START packet as the bytes they came in.
#[derive(Debug, Clone, Copy)]
pub enum FileFrame<'a> {
    Start {
        sequence_index: u32,
        total_size: u32,
        source_path: &'a [u8],
        destination_path: &'a [u8],
    },
    Data { sequence_index: u32, offset: u32, length: u16 },
    End { sequence_index: u32, checksum: u32 },
    Cancel { sequence_index: u32 },
}

/// The fields of a file packet, with the paths of a START packet as byte sequences.
pub enum FileFrameView {
    Start {
        sequence_index: u32,
        total_size: u32,
        source_path: Seq<u8>,
        destination_path: Seq<u8>,
    },
    Data { sequence_index: u32, offset: u32, length: u16 },
    End { sequence_index: u32, checksum: u32 },
    Cancel { sequence_index: u32 },
}

impl<'a> View for FileFrame<'a> {
    type V = FileFrameView;

    open spec fn view(&self) -> FileFrameView {
        match *self {
            FileFrame::Start { sequence_index, total_size, source_path, destination_path } => {
                FileFrameView::Start {
                    sequence_index,
                    total_size,
                    source_path: source_path@,
                    destination_path: destination_path@,
                }
            },
            FileFrame::Data { sequence_index, offset, length } => FileFrameView::Data {
                sequence_index,
                offset,
                length,
            },
            FileFrame::End { sequence_index, checksum } => FileFrameView::End {
                sequence_index,
                checksum,
            },
            FileFrame::Cancel { sequence_index } => FileFrameView::Cancel { sequence_index },
        }
    }
}

/// The packet starts as a file packet does: long enough, and with the APID and the descriptor
/// of file packets.
pub open spec fn has_file_header(data: Seq<u8>) -> bool {
    &&& data.len() >= 13
    &&& be16(data, 0) % 0x800 == FILE_APID
    &&& be16(data, 6) == FILE_DESCRIPTOR
}

/// A START body: the file size, then the source and the destination path, each behind its length.
pub open spec fn start_frame(sequence_index: u32, body: Seq<u8>) -> Option<FileFrameView> {
    let source_end = 5 + body[4];
    let destination_end = source_end + 1 + body[source_end];
    if body.len() < 5 || body.len() < source_end + 1 || body.len() < destination_end {
        None
    } else {
        Some(
            FileFrameView::Start {
                sequence_index,
                total_size: be32(body, 0) as u32,
                source_path: body.subrange(5, source_end),
                destination_path: body.subrange(source_end + 1, destination_end),
            },
        )
    }
}

/// A DATA body: the offset and the length of the bytes that follow.
pub open spec fn data_frame(sequence_index: u32, body: Seq<u8>) -> Option<FileFrameView> {
    if body.len() < 6 {
        None
    } else {
        Some(
            FileFrameView::Data {
                sequence_index,
                offset: be32(body, 0) as u32,
                length: be16(body, 4) as u16,
            },
        )
    }
}

/// An END body: the CFDP modular checksum.
pub open spec fn end_frame(sequence_index: u32, body: Seq<u8>) -> Option<FileFrameView> {
    if body.len() < 4 {
        None
    } else {
        Some(FileFrameView::End { sequence_index, checksum: be32(body, 0) as u32 })
    }
}

/// The fields of the file packet in `data`, if there is one.
pub open spec fn file_frame(data: Seq<u8>) -> Option<FileFrameView> {
    let sequence_index = be32(data, 9) as u32;
    let body = data.skip(13);
    if !has_file_header(data) {
        None
    } else if data[8] == 0 {
        start_frame(sequence_index, body)
    } else if data[8] == 1 {
        data_frame(sequence_index, body)
    } else if data[8] == 2 {
        end_frame(sequence_index, body)
    } else if data[8] == 3 {
        Some(FileFrameView::Cancel { sequence_index })
    } else {
        None
    }
}

/// The packet that a frame stands for: the paths are read as text.
pub open spec fn packet_of_frame(frame: FileFrameView) -> FilePacketView {
    match frame {
        FileFrameView::Start { sequence_index, total_size, source_path, destination_path } => {
            FilePacketView::Start {
                sequence_index,
                total_size,
                source_path: lossy_text(source_path),
                destination_path: lossy_text(destination_path),
            }
        },
        FileFrameView::Data { sequence_index, offset, length } => FilePacketView::Data {
            sequence_index,
            offset,
            length,
        },
        FileFrameView::End { sequence_index, checksum } => FilePacketView::End {
            sequence_index,
            checksum,
        },
        FileFrameView::Cancel { sequence_index } => FilePacketView::Cancel { sequence_index },
    }
}

/// The file packet in `data`, if there is one.
pub open spec fn file_packet(data: Seq<u8>) -> Option<FilePacketView> {
    match file_frame(data) {
        Some(frame) => Some(packet_of_frame(frame)),
        None => None,
    }
}

/// Find the fields of a raw CCSDS/F Prime file packet, without reading its paths as text.
pub fn parse_file_frame<'a>(data: &'a [u8]) -> (parsed: Option<FileFrame<'a>>)
    ensures
        parsed is Some <==> file_frame(data@) is Some,
        parsed matches Some(frame) ==> file_frame(data@) == Some(frame@),
{
    if data.len() < 13 {
        return None;
    }
    let packet_id: u16 = read_be16(data, 0);
    assert(packet_id & 0x07FF == packet_id % 0x800) by (bit_vector);
    if packet_id & 0x07FF != FILE_APID {
        return None;
    }
    if read_be16(data, 6) != FILE_DESCRIPTOR {
        return None;
    }
    let packet_type: u8 = data[8];
    let sequence_index: u32 = read_be32(data, 9);
    let body = slice_subrange(data, 13, data.len());
    assert(body@ =~= data@.skip(13));
    match packet_type {
        0 => {
            // START: size U32, then length-prefixed source and destination strings.
            if body.len() < 5 {
                return None;
            }
            let total_size: u32 = read_be32(body, 0);
            let source_end: usize = 5 + body[4] as usize;
            if body.len() < source_end + 1 {
                return None;
            }
            let destination_start: usize = source_end + 1;
            let destination_end: usize = destination_start + body[source_end] as usize;
            if body.len() < destination_end {
                return None;
            }
            Some(
                FileFrame::Start {
                    sequence_index,
                    total_size,
                    source_path: slice_subrange(body, 5, source_end),
                    destination_path: slice_subrange(body, destination_start, destination_end),
                },
            )
        },
        1 => {
            // DATA: offset U32, length U16, then the bytes (which are deliberately never read).
            if body.len() < 6 {
                return None;
            }
            Some(
                FileFrame::Data {
                    sequence_index,
                    offset: read_be32(body, 0),
                    length: read_be16(body, 4),
                },
            )
        },
        2 => {
            // END: U32 CFDP modular checksum.
            if body.len() < 4 {
                return None;
            }
            Some(FileFrame::End { sequence_index, checksum: read_be32(body, 0) })
        },
        3 => Some(FileFrame::Cancel { sequence_index }),
        _ => None,
    }
}

/// Parse a raw CCSDS/F Prime file packet.
///
/// Returns `None` if the packet is not a file packet (wrong APID or descriptor) or too short
/// to parse, rather than erroring — non-file packets are common on the same stream and are not
/// a failure.
pub fn parse_file_packet(data: &[u8]) -> (parsed: Option<FilePacket>)
    ensures
        parsed is Some <==> file_packet(data@) is Some,
        parsed matches Some(packet) ==> file_packet(data@) == Some(packet@),
{
    match parse_file_frame(data) {
        None => None,
        Some(frame) => Some(
            match frame {
                FileFrame::Start {
                    sequence_index,
                    total_size,
                    source_path,
                    destination_path,
                } => FilePacket::Start {
                    sequence_index,
                    total_size,
                    source_path: from_utf8_lossy(source_path),
                    destination_path: from_utf8_lossy(destination_path),
                },
                FileFrame::Data { sequence_index, offset, length } => FilePacket::Data {
                    sequence_index,
                    offset,
                    length,
                },
                FileFrame::End { sequence_index, checksum } => FilePacket::End {
                    sequence_index,
                    checksum,
                },
                FileFrame::Cancel { sequence_index } => FilePacket::Cancel { sequence_index },
            },
        ),
    }
}

/// The packet can be laid out: each path fits behind a length of one byte.
pub open spec fn fits_in_a_packet(packet: FilePacketView) -> bool {
    packet matches FilePacketView::Start { source_path, destination_path, .. } ==> {
        &&& encode_utf8(source_path).len() <= u8::MAX
        &&& encode_utf8(destination_path).len() <= u8::MAX
    }
}

/// The type byte of a packet.
pub open spec fn type_byte(packet: FilePacketView) -> u8 {
    match packet {
        FilePacketView::Start { .. } => 0,
        FilePacketView::Data { .. } => 1,
        FilePacketView::End { .. } => 2,
        FilePacketView::Cancel { .. } => 3,
    }
}

/// The sequence index of a packet.
pub open spec fn sequence_index_of(packet: FilePacketView) -> u32 {
    match packet {
        FilePacketView::Start { sequence_index, .. } => sequence_index,
        FilePacketView::Data { sequence_index, .. } => sequence_index,
        FilePacketView::End { sequence_index, .. } => sequence_index,
        FilePacketView::Cancel { sequence_index } => sequence_index,
    }
}

/// The body of a packet, up to the file bytes of a DATA packet.
pub open spec fn body_bytes(packet: FilePacketView) -> Seq<u8> {
    match packet {
        FilePacketView::Start { total_size, source_path, destination_path, .. } => {
            let source = encode_utf8(source_path);
            let destination = encode_utf8(destination_path);
            be32_bytes(total_size) + seq![source.len() as u8] + source + seq![
                destination.len() as u8,
            ] + destination
        },
        FilePacketView::Data { offset, length, .. } => be32_bytes(offset) + be16_bytes(length),
        FilePacketView::End { checksum, .. } => be32_bytes(checksum),
        FilePacketView::Cancel { .. } => Seq::empty(),
    }
}

/// The bytes of a packet behind the three words of a CCSDS primary header.
pub open spec fn packet_bytes(
    packet: FilePacketView,
    packet_id: u16,
    sequence_control: u16,
    packet_length: u16,
) -> Seq<u8> {
    be16_bytes(packet_id) + be16_bytes(sequence_control) + be16_bytes(packet_length) + be16_bytes(
        FILE_DESCRIPTOR,
    ) + seq![type_byte(packet)] + be32_bytes(sequence_index_of(packet)) + body_bytes(packet)
}

/// A packet that was laid out is the one that is parsed, whatever follows it: the file bytes of
/// a DATA packet have no part in the result, nor have the sequence count and the length of the
/// CCSDS header.
pub proof fn lemma_packet_reads_back(
    packet: FilePacketView,
    packet_id: u16,
    sequence_control: u16,
    packet_length: u16,
    rest: Seq<u8>,
)
    requires
        packet_id % 0x800 == FILE_APID,
        fits_in_a_packet(packet),
    ensures
        file_packet(packet_bytes(packet, packet_id, sequence_control, packet_length) + rest)
            == Some(packet),
{
    let body = body_bytes(packet);
    let data = packet_bytes(packet, packet_id, sequence_control, packet_length) + rest;
    assert(data.subrange(0, 2) =~= be16_bytes(packet_id));
    assert(data.subrange(6, 8) =~= be16_bytes(FILE_DESCRIPTOR));
    assert(data.subrange(9, 13) =~= be32_bytes(sequence_index_of(packet)));
    lemma_be16_reads_back(data, 0, packet_id);
    lemma_be16_reads_back(data, 6, FILE_DESCRIPTOR);
    lemma_be32_reads_back(data, 9, sequence_index_of(packet));
    let read = data.skip(13);
    assert(read =~= body + rest);
    match packet {
        FilePacketView::Start { total_size, source_path, destination_path, .. } => {
            let source = encode_utf8(source_path);
            let destination = encode_utf8(destination_path);
            assert(read.subrange(0, 4) =~= be32_bytes(total_size));
            lemma_be32_reads_back(read, 0, total_size);
            let source_end = 5 + source.len() as int;
            let destination_end = source_end + 1 + destination.len();
            assert(read[4] == source.len());
            assert(read.subrange(5, source_end) =~= source);
            assert(read[source_end] == destination.len());
            assert(read.subrange(source_end + 1, destination_end) =~= destination);
            encode_utf8_valid_utf8(source_path);
            encode_utf8_valid_utf8(destination_path);
            encode_utf8_decode_utf8(source_path);
            encode_utf8_decode_utf8(destination_path);
        },
        FilePacketView::Data { offset, length, .. } => {
            assert(read.subrange(0, 4) =~= be32_bytes(offset));
            assert(read.subrange(4, 6) =~= be16_bytes(length));
            lemma_be32_reads_back(read, 0, offset);
            lemma_be16_reads_back(read, 4, length);
        },
        FilePacketView::End { checksum, .. } => {
            assert(read.subrange(0, 4) =~= be32_bytes(checksum));
            lemma_be32_reads_back(read, 0, checksum);
        },
        FilePacketView::Cancel { .. } => {},
    }
}

} // verus!
