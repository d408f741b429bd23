use hermes_yamcs::dp_container::{
    expected_total_len, parse_header, record_count, DpState, CONTAINER_USER_DATA_SIZE,
    DP_DESCRIPTOR, HASH_SIZE, HEADER_SIZE,
};

/// A real container, 1,277 bytes total, produced by `Ref::DpDemo`. `57 + 4 + 1212 + 4 = 1277`.
fn appendix_a_fixture() -> Vec<u8> {
    let mut data = Vec::with_capacity(1277);
    data.extend_from_slice(&5u16.to_be_bytes()); // descriptor
    data.extend_from_slice(&268521472u32.to_be_bytes()); // container id 0x10015000
    data.extend_from_slice(&0u32.to_be_bytes()); // priority
    data.extend_from_slice(&2u16.to_be_bytes()); // time base
    data.push(0); // context
    data.extend_from_slice(&1788986684u32.to_be_bytes()); // seconds
    data.extend_from_slice(&693201u32.to_be_bytes()); // useconds
    data.push(0); // proc types
    data.extend(std::iter::repeat(0u8).take(CONTAINER_USER_DATA_SIZE)); // user data
    data.push(0); // dp state UNTRANSMITTED
    data.extend_from_slice(&1212u16.to_be_bytes()); // data size
    data.extend_from_slice(&0xDEADBEEFu32.to_be_bytes()); // header hash
    assert_eq!(data.len(), HEADER_SIZE + HASH_SIZE);
    data.extend(std::iter::repeat(0u8).take(1212)); // records
    data.extend_from_slice(&0xCAFEBABEu32.to_be_bytes()); // data hash
    assert_eq!(data.len(), 1277);
    data
}

#[test]
fn parses_appendix_a_fixture_header() {
    let data = appendix_a_fixture();
    let header = parse_header(&data).expect("should parse");
    assert_eq!(header.descriptor, DP_DESCRIPTOR);
    assert_eq!(header.container_id, 268521472);
    assert_eq!(header.container_id, 0x10015000);
    assert_eq!(header.priority, 0);
    assert_eq!(header.time_base, 2);
    assert_eq!(header.time_context, 0);
    assert_eq!(header.seconds, 1788986684);
    assert_eq!(header.useconds, 693201);
    assert_eq!(header.proc_types, 0);
    assert_eq!(header.dp_state, DpState::Untransmitted);
    assert_eq!(header.data_size, 1212);
}

#[test]
fn appendix_a_fixture_length_arithmetic_checks_out() {
    let data = appendix_a_fixture();
    let header = parse_header(&data).expect("should parse");
    assert_eq!(expected_total_len(header.data_size), 1277);
    assert_eq!(data.len(), 1277);
}

#[test]
fn dp_state_always_untransmitted_in_a_downlinked_copy() {
    // The file is written before transmission and never rewritten, so transmission state lives
    // only in the onboard catalog. This isn't something the parser can enforce, but the fixture
    // documents the expectation.
    let data = appendix_a_fixture();
    let header = parse_header(&data).expect("should parse");
    assert_eq!(header.dp_state, DpState::Untransmitted);
}

#[test]
fn parse_header_rejects_truncated_data() {
    let data = vec![0u8; 10];
    assert!(parse_header(&data).is_none());
}

#[test]
fn dp_state_unknown_value_is_preserved_not_rejected() {
    assert_eq!(DpState::from(42), DpState::Unknown(42));
}

#[test]
fn record_count_divides_exactly() {
    assert_eq!(record_count(1212, 12), Some(101));
    assert_eq!(record_count(100, 3), None); // not an exact multiple
    assert_eq!(record_count(100, 0), None); // avoid divide by zero
}

#[test]
fn dp_state_known_values() {
    assert_eq!(DpState::from(0), DpState::Untransmitted);
    assert_eq!(DpState::from(1), DpState::Partial);
    assert_eq!(DpState::from(2), DpState::Transmitted);
    assert_eq!(DpState::from(3), DpState::Unknown(3));
}

#[test]
fn header_fields_come_from_their_own_bytes() {
    let data: Vec<u8> = (1..=61).collect();
    let header = parse_header(&data).expect("should parse");
    assert_eq!(header.descriptor, 0x0102);
    assert_eq!(header.container_id, 0x03040506);
    assert_eq!(header.priority, 0x0708090a);
    assert_eq!(header.time_base, 0x0b0c);
    assert_eq!(header.time_context, 0x0d);
    assert_eq!(header.seconds, 0x0e0f1011);
    assert_eq!(header.useconds, 0x12131415);
    assert_eq!(header.proc_types, 0x16);
    assert_eq!(header.user_data.to_vec(), (23..=54).collect::<Vec<u8>>());
    assert_eq!(header.dp_state, DpState::Unknown(55));
    assert_eq!(header.data_size, 0x3839);
    assert_eq!(header.header_hash, 0x3a3b3c3d);
}

#[test]
fn header_needs_its_hash() {
    assert!(parse_header(&[0u8; 60]).is_none());
    assert!(parse_header(&[0u8; 61]).is_some());
}

#[test]
fn header_does_not_depend_on_the_records() {
    let data = appendix_a_fixture();
    assert_eq!(parse_header(&data), parse_header(&data[..61]));
}

#[test]
fn total_length_at_the_ends_of_the_range() {
    assert_eq!(expected_total_len(0), 65);
    assert_eq!(expected_total_len(65535), 65600);
}

#[test]
fn no_records_in_an_empty_area() {
    assert_eq!(record_count(0, 12), Some(0));
    assert_eq!(record_count(65535, 1), Some(65535));
}
