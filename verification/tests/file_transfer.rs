use hermes_yamcs::buckets::BucketObject;
use hermes_yamcs::convert::parse_yamcs_time;
use hermes_yamcs::file_transfer::packet::{parse_file_frame, FileFrame};
use hermes_yamcs::file_transfer::{
    bucket_object_to_file_downlink, parse_file_packet, parse_yamcs_timestamp, FilePacket,
    IntervalTracker, DEFAULT_DOWNLINK_BUCKET,
};
use hermes_yamcs::hermes::{FileDownlinkChunk, FileDownlinkCompletionStatus, Timestamp};
use hermes_yamcs::string_map::StringMap;

fn object(name: &str, size: u64, created: Option<&str>) -> BucketObject {
    BucketObject {
        name: name.to_string(),
        size: Some(size),
        created: created.map(|s| s.to_string()),
        content_type: None,
        metadata: StringMap::default(),
    }
}

#[test]
fn bucket_object_maps_to_completed_downlink() {
    let obj = object(
        "./DpCat/Dp_268521472_1788986684_00693201.fdp",
        1277,
        Some("2026-01-01T00:00:00.000Z"),
    );
    let fd = bucket_object_to_file_downlink(&obj, "myinstance");
    assert_eq!(fd.uid, "./DpCat/Dp_268521472_1788986684_00693201.fdp");
    assert_eq!(fd.size, 1277);
    assert_eq!(fd.source, "myinstance");
    assert_eq!(fd.status, FileDownlinkCompletionStatus::DownlinkCompleted);
    assert!(fd.missing_chunks.is_empty());
    assert!(fd.duplicate_chunks.is_empty());
    assert!(fd.time_end.is_some());
}

#[test]
fn bucket_object_without_created_time_has_no_time_end() {
    let obj = object("pic.jpg", 42, None);
    let fd = bucket_object_to_file_downlink(&obj, "myinstance");
    assert!(fd.time_end.is_none());
}

#[test]
fn bucket_object_fields_are_copied_or_left_empty() {
    let mut obj = object("pic.jpg", 42, Some("2026-01-01T00:00:01Z"));
    let fd = bucket_object_to_file_downlink(&obj, "myinstance");
    assert_eq!(fd.destination_path, "pic.jpg");
    assert_eq!(fd.file_path, "pic.jpg");
    assert_eq!(fd.source_path, "");
    assert_eq!(fd.time_start, None);
    assert_eq!(fd.time_end, Some(Timestamp { seconds: 1767225601, nanos: 0 }));
    assert_eq!(fd.metadata.len(), 0);
    obj.size = None;
    obj.created = Some("yesterday".to_string());
    let fd = bucket_object_to_file_downlink(&obj, "myinstance");
    assert_eq!(fd.size, 0);
    assert_eq!(fd.time_end, None);
    assert_eq!(fd.status, FileDownlinkCompletionStatus::DownlinkCompleted);
}

#[test]
fn downlink_bucket_has_a_default_name() {
    assert_eq!(DEFAULT_DOWNLINK_BUCKET, "fprimeFilesIn");
}

#[test]
fn timestamps_are_read_as_utc() {
    assert_eq!(
        parse_yamcs_timestamp("2026-09-09T22:54:58.897Z"),
        Some(Timestamp { seconds: 1788994498, nanos: 897_000_000 })
    );
    assert_eq!(
        parse_yamcs_timestamp("1970-01-01T01:00:00+01:00"),
        Some(Timestamp { seconds: 0, nanos: 0 })
    );
    assert_eq!(
        parse_yamcs_timestamp("1969-12-31T23:59:59.5Z"),
        Some(Timestamp { seconds: -1, nanos: 500_000_000 })
    );
    assert_eq!(
        parse_yamcs_timestamp("2016-12-31T23:59:60.25Z"),
        Some(Timestamp { seconds: 1483228799, nanos: 1_250_000_000 })
    );
    assert_eq!(parse_yamcs_timestamp("2026-09-09"), None);
    assert_eq!(parse_yamcs_timestamp(""), None);
}

#[test]
fn both_readings_of_a_time_agree() {
    for text in ["2026-09-09T22:54:58.897Z", "2026-09-09T22:54:58+02:00", "2026-09-09", "x"] {
        let time = parse_yamcs_time(text).ok();
        assert_eq!(parse_yamcs_timestamp(text), time.and_then(|t| t.unix));
    }
}

#[test]
fn interval_tracker_out_of_order_chunks_sum_correctly() {
    let mut tracker = IntervalTracker::new();
    tracker.record(1186, 1186); // second chunk arrives first
    tracker.record(0, 1186); // first chunk arrives second
    assert_eq!(tracker.received_bytes(), 2372);
    assert_eq!(tracker.duplicate_bytes(), 0);
    assert!(tracker.gaps(2372).is_empty());
}

#[test]
fn interval_tracker_duplicate_offset_counts_as_duplicate() {
    let mut tracker = IntervalTracker::new();
    tracker.record(0, 100);
    tracker.record(0, 100); // exact duplicate
    assert_eq!(tracker.received_bytes(), 100);
    assert_eq!(tracker.duplicate_bytes(), 100);
}

#[test]
fn interval_tracker_partial_overlap_counts_only_overlapping_bytes_as_duplicate() {
    let mut tracker = IntervalTracker::new();
    tracker.record(0, 100);
    tracker.record(50, 100); // 50 bytes overlap [50,100), 50 new bytes [100,150)
    assert_eq!(tracker.received_bytes(), 150);
    assert_eq!(tracker.duplicate_bytes(), 50);
}

#[test]
fn interval_tracker_adjacent_intervals_coalesce() {
    let mut tracker = IntervalTracker::new();
    tracker.record(0, 100);
    tracker.record(100, 100);
    // Coalesced into a single [0, 200) interval.
    assert_eq!(tracker.intervals().len(), 1);
    assert_eq!(tracker.intervals()[0], (0, 200));
}

#[test]
fn interval_tracker_gaps_are_the_complement_against_total_size() {
    let mut tracker = IntervalTracker::new();
    tracker.record(0, 100);
    tracker.record(200, 100);
    let gaps = tracker.gaps(300);
    assert_eq!(
        gaps,
        vec![FileDownlinkChunk {
            offset: 100,
            size: 100
        }]
    );
}

#[test]
fn interval_tracker_gaps_empty_for_complete_transfer() {
    let mut tracker = IntervalTracker::new();
    tracker.record(0, 300);
    assert!(tracker.gaps(300).is_empty());
}

#[test]
fn gaps_end_with_the_file() {
    let mut tracker = IntervalTracker::default();
    assert_eq!(tracker.gaps(50), vec![FileDownlinkChunk { offset: 0, size: 50 }]);
    assert!(tracker.gaps(0).is_empty());
    tracker.record(200, 100);
    assert_eq!(tracker.gaps(50), vec![FileDownlinkChunk { offset: 0, size: 50 }]);
    assert_eq!(
        tracker.gaps(310),
        vec![
            FileDownlinkChunk { offset: 0, size: 200 },
            FileDownlinkChunk { offset: 300, size: 10 }
        ]
    );
    tracker.record(0, 100);
    assert!(tracker.gaps(100).is_empty());
}

#[test]
fn gaps_and_received_bytes_make_up_the_file() {
    let mut tracker = IntervalTracker::new();
    tracker.record(10, 20);
    tracker.record(50, 5);
    tracker.record(25, 10);
    let missing: u64 = tracker.gaps(100).iter().map(|gap| gap.size).sum();
    assert_eq!(missing + tracker.received_bytes(), 100);
    assert_eq!(missing, 70);
}

#[test]
fn one_chunk_joins_all_that_it_touches() {
    let mut tracker = IntervalTracker::new();
    tracker.record(0, 10);
    tracker.record(20, 10);
    tracker.record(40, 10);
    tracker.record(60, 10);
    tracker.record(25, 20);
    assert_eq!(*tracker.intervals(), vec![(0, 10), (20, 50), (60, 70)]);
    assert_eq!(tracker.duplicate_bytes(), 10);
    assert_eq!(tracker.received_bytes(), 50);
}

#[test]
fn empty_chunk_changes_nothing() {
    let mut tracker = IntervalTracker::new();
    tracker.record(5, 5);
    tracker.record(7, 0);
    tracker.record(u64::MAX, 0);
    assert_eq!(*tracker.intervals(), vec![(5, 10)]);
    assert_eq!(tracker.duplicate_bytes(), 0);
}

#[test]
fn the_whole_offset_range_fits() {
    let mut tracker = IntervalTracker::new();
    tracker.record(0, u64::MAX);
    assert_eq!(tracker.received_bytes(), u64::MAX);
    assert!(tracker.gaps(u64::MAX).is_empty());
}

#[test]
fn chunks_in_any_order_leave_the_same_transfer() {
    let chunks: [(u64, u64); 4] = [(0, 30), (20, 30), (100, 10), (45, 60)];
    let mut forward = IntervalTracker::new();
    let mut backward = IntervalTracker::new();
    for &(offset, length) in chunks.iter() {
        forward.record(offset, length);
    }
    for &(offset, length) in chunks.iter().rev() {
        backward.record(offset, length);
    }
    assert_eq!(forward.intervals(), backward.intervals());
    assert_eq!(*forward.intervals(), vec![(0, 110)]);
    assert_eq!(forward.duplicate_bytes(), 20);
    assert_eq!(backward.duplicate_bytes(), 20);
    assert_eq!(forward.received_bytes() + forward.duplicate_bytes(), 130);
}

#[test]
fn parse_file_packet_header_matches_appendix_a_fixture() {
    // "0003 c004 0025 0003 01 00000001 000000..."
    // APID 3, seq count 4, CCSDS length 37, descriptor 3, type 1 (DATA), SequenceIndex 1,
    // offset 0, then 25 bytes of data (only the first few of which are given).
    let mut data = vec![
        0x00, 0x03, // CCSDS packet id: APID 3
        0xc0, 0x04, // sequence flags + count
        0x00, 0x25, // CCSDS length 37
        0x00, 0x03, // F Prime descriptor 3
        0x01, // FilePacketType DATA
        0x00, 0x00, 0x00, 0x01, // SequenceIndex 1
        0x00, 0x00, 0x00, 0x00, // offset 0
        0x00, 0x19, // length 25
    ];
    data.extend(std::iter::repeat(0u8).take(25)); // 25 bytes of payload

    let packet = parse_file_packet(&data).expect("should parse as a file packet");
    assert_eq!(
        packet,
        FilePacket::Data {
            sequence_index: 1,
            offset: 0,
            length: 25,
        }
    );
}

#[test]
fn parse_file_packet_rejects_non_file_apid() {
    let mut data = vec![0u8; 20];
    // APID 1 (telemetry), not 3 (file)
    data[0] = 0x00;
    data[1] = 0x01;
    assert_eq!(parse_file_packet(&data), None);
}

fn start_packet(source: &[u8], destination: &[u8]) -> Vec<u8> {
    let mut data = vec![
        0x00, 0x03, 0xc0, 0x00, 0x00, 0x00, 0x00, 0x03, 0x00, 0x00, 0x00, 0x00, 0x00,
    ];
    data.extend_from_slice(&100u32.to_be_bytes()); // total size
    data.push(source.len() as u8);
    data.extend_from_slice(source);
    data.push(destination.len() as u8);
    data.extend_from_slice(destination);
    data
}

#[test]
fn parse_file_packet_start_extracts_size_and_paths() {
    let mut body = Vec::new();
    body.extend_from_slice(&100u32.to_be_bytes()); // total size
    let src = b"/src/path";
    body.push(src.len() as u8);
    body.extend_from_slice(src);
    let dst = b"./dst/path";
    body.push(dst.len() as u8);
    body.extend_from_slice(dst);

    let mut data = vec![
        0x00, 0x03, 0xc0, 0x00, 0x00, 0x00, 0x00, 0x03, 0x00, 0x00, 0x00, 0x00, 0x00,
    ];
    data.extend(body);

    let packet = parse_file_packet(&data).expect("should parse");
    assert_eq!(
        packet,
        FilePacket::Start {
            sequence_index: 0,
            total_size: 100,
            source_path: "/src/path".to_string(),
            destination_path: "./dst/path".to_string(),
        }
    );
}

#[test]
fn paths_are_read_as_utf8_with_replacements() {
    let data = start_packet("/\u{e9}t\u{e9}".as_bytes(), b"a\xffb");
    assert_eq!(
        parse_file_packet(&data),
        Some(FilePacket::Start {
            sequence_index: 0,
            total_size: 100,
            source_path: "/\u{e9}t\u{e9}".to_string(),
            destination_path: "a\u{fffd}b".to_string(),
        })
    );
}

#[test]
fn frame_keeps_the_bytes_of_the_paths() {
    let data = start_packet(b"/src", b"a\xffb");
    match parse_file_frame(&data) {
        Some(FileFrame::Start { source_path, destination_path, total_size, .. }) => {
            assert_eq!(source_path, b"/src");
            assert_eq!(destination_path, b"a\xffb");
            assert_eq!(total_size, 100);
        }
        other => panic!("unexpected frame: {:?}", other),
    }
}

#[test]
fn start_packet_cut_short_is_rejected() {
    let data = start_packet(b"/src/path", b"./dst/path");
    for len in 0..data.len() {
        assert_eq!(parse_file_packet(&data[..len]), None);
    }
    assert!(parse_file_packet(&data).is_some());
    let empty = start_packet(b"", b"");
    assert_eq!(empty.len(), 19);
    assert!(parse_file_packet(&empty).is_some());
    assert_eq!(parse_file_packet(&empty[..18]), None);
}

#[test]
fn end_and_cancel_packets() {
    let mut data = vec![
        0xf8, 0x03, 0, 0, 0, 0, 0x00, 0x03, 0x02, 0x00, 0x00, 0x01, 0x02, 0xde, 0xad, 0xbe, 0xef,
    ];
    assert_eq!(
        parse_file_packet(&data),
        Some(FilePacket::End { sequence_index: 258, checksum: 0xdeadbeef })
    );
    assert_eq!(parse_file_packet(&data[..16]), None);
    data[8] = 3;
    assert_eq!(
        parse_file_packet(&data[..13]),
        Some(FilePacket::Cancel { sequence_index: 258 })
    );
    data[8] = 4;
    assert_eq!(parse_file_packet(&data), None);
}

#[test]
fn apid_is_the_low_eleven_bits() {
    let mut data = vec![0u8; 13];
    data[1] = 3;
    data[7] = 3;
    data[8] = 3;
    assert!(parse_file_packet(&data).is_some());
    data[0] = 0x08; // bit 11 is not part of the APID
    assert!(parse_file_packet(&data).is_some());
    data[0] = 0x04; // bit 10 is
    assert_eq!(parse_file_packet(&data), None);
    data[0] = 0;
    data[6] = 1; // another descriptor
    assert_eq!(parse_file_packet(&data), None);
}

#[test]
fn file_bytes_have_no_part_in_the_result() {
    let mut data = vec![0, 3, 0, 0, 0, 0, 0, 3, 1, 0, 0, 0, 7, 0, 1, 0, 0, 0x01, 0x02];
    let expected = Some(FilePacket::Data { sequence_index: 7, offset: 65536, length: 258 });
    assert_eq!(parse_file_packet(&data), expected);
    data.extend_from_slice(b"payload");
    data[2] = 0xff;
    data[5] = 0xff;
    assert_eq!(parse_file_packet(&data), expected);
    assert_eq!(parse_file_packet(&data[..18]), None);
}
