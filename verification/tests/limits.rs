use slot_protocol::data_type::ScalarValue;
use slot_protocol::error::FusionError;
use slot_protocol::ipc::SlotStream;
use slot_protocol::protocol::{
    consume_header, prepare_error, prepare_params, prepare_query, prepare_table_refs,
    read_error, read_query, read_table_refs, Direction, Flag, Header, Packet,
};
use slot_protocol::table_ref::TableReference;

#[test]
fn header_sizes() {
    assert_eq!(Header::estimate_size(), 6);
    assert_eq!(Header::payload_max_size(8192), 8186);
    assert_eq!(Header::payload_max_size(6), 0);
    assert_eq!(Header::payload_max_size(3), 0);
    assert_eq!(
        Header::default(),
        Header { direction: Direction::ToWorker, packet: Packet::Ack, flag: Flag::Last, length: 0 }
    );
    assert_eq!(Direction::default(), Direction::ToWorker);
    assert_eq!(Packet::default(), Packet::Ack);
    assert_eq!(Flag::default(), Flag::Last);
}

#[test]
fn tags_stand_for_themselves() {
    assert_eq!(Direction::try_from(0).unwrap(), Direction::ToWorker);
    assert_eq!(Direction::try_from(1).unwrap(), Direction::ToBackend);
    assert_eq!(Packet::try_from(3).unwrap(), Packet::Metadata);
    assert_eq!(Flag::try_from(0).unwrap(), Flag::More);
    for tag in 0u8..5 {
        assert_eq!(Packet::try_from(tag).unwrap().to_u8(), tag);
    }
    for tag in 0u8..2 {
        assert_eq!(Direction::try_from(tag).unwrap().to_u8(), tag);
        assert_eq!(Flag::try_from(tag).unwrap().to_u8(), tag);
    }
    assert_eq!(
        Direction::try_from(2).unwrap_err(),
        FusionError::Deserialize("direction".to_string(), 2)
    );
    assert_eq!(
        Packet::try_from(5).unwrap_err(),
        FusionError::Deserialize("packet".to_string(), 5)
    );
    assert_eq!(Flag::try_from(200).unwrap_err(), FusionError::Deserialize("flag".to_string(), 200));
}

#[test]
fn header_byte_above_the_small_numbers_is_out_of_range() {
    for (at, field) in [(0usize, "direction"), (1, "packet"), (2, "flag")] {
        for bad in [0x80u8, 0xc8, 0xff] {
            let mut bytes = vec![0u8, 0, 0, 0xcd, 0, 0];
            bytes[at] = bad;
            let mut stream = SlotStream::from_bytes(bytes);
            assert_eq!(
                consume_header(&mut stream).unwrap_err(),
                FusionError::Deserialize(field.to_string(), bad as u64)
            );
        }
    }
}

#[test]
fn header_that_is_cut_short_or_has_no_length() {
    let mut stream = SlotStream::from_bytes(vec![0, 0, 1, 0xcc, 0, 0]);
    assert_eq!(consume_header(&mut stream).unwrap_err(), FusionError::TypeMismatch(0xcc));
    let mut stream = SlotStream::from_bytes(vec![0, 0, 1, 0xcd, 0]);
    assert_eq!(consume_header(&mut stream).unwrap_err(), FusionError::InvalidDataRead);
    let mut stream = SlotStream::from_bytes(vec![0, 0]);
    assert_eq!(consume_header(&mut stream).unwrap_err(), FusionError::InvalidMarkerRead);
}

#[test]
fn query_at_the_payload_limit() {
    // a short text: the limit is exact
    let capacity = 108;
    let limit = Header::payload_max_size(capacity);
    let fits = "q".repeat(limit - 2);
    let mut stream = SlotStream::from_bytes(vec![1; capacity]);
    prepare_query(&mut stream, &fits).unwrap();
    assert_eq!(stream.position(), capacity);
    stream.reset();
    let header = consume_header(&mut stream).unwrap();
    assert_eq!(header.length as usize, limit);
    let (query, len) = read_query(&mut stream).unwrap();
    assert_eq!(query, fits);
    assert_eq!(len as usize, limit - 2);

    let too_long = "q".repeat(limit - 1);
    let mut stream = SlotStream::from_bytes(vec![1; capacity]);
    assert_eq!(
        prepare_query(&mut stream, &too_long).unwrap_err(),
        FusionError::PayloadTooLarge(limit + 1)
    );
    // nothing was written
    assert_eq!(stream.as_bytes(), vec![1; capacity].as_slice());
    assert_eq!(stream.position(), 0);
}

#[test]
fn long_query_at_the_payload_limit_needs_one_byte_more() {
    let capacity = 8192;
    let limit = Header::payload_max_size(capacity);
    let text = "q".repeat(limit - 2);
    // the string prefix of a text of 256 bytes or more takes three bytes
    let mut stream = SlotStream::from_bytes(vec![1; capacity]);
    assert_eq!(prepare_query(&mut stream, &text).unwrap_err(), FusionError::SlotOverflow);
    // no header was left behind
    assert_eq!(stream.as_bytes(), vec![1; capacity].as_slice());
    assert_eq!(stream.position(), 0);
    let mut stream = SlotStream::from_bytes(vec![1; capacity + 1]);
    assert_eq!(
        prepare_query(&mut stream, &"q".repeat(limit)).unwrap_err(),
        FusionError::PayloadTooLarge(limit + 2)
    );
    assert_eq!(stream.as_bytes(), vec![1; capacity + 1].as_slice());
    let one_less = "q".repeat(limit - 3);
    let mut stream = SlotStream::from_bytes(vec![1; capacity]);
    prepare_query(&mut stream, &one_less).unwrap();
    assert_eq!(stream.position(), capacity);
    stream.reset();
    let header = consume_header(&mut stream).unwrap();
    assert_eq!(header.length as usize, limit - 1);
    assert_eq!(read_query(&mut stream).unwrap(), (one_less.as_str(), (limit - 3) as u32));
}

#[test]
fn empty_texts_round_trip() {
    let mut stream = SlotStream::from_bytes(vec![1; 8]);
    prepare_query(&mut stream, "").unwrap();
    assert_eq!(&stream.as_bytes()[..7], &[0, 4, 1, 0xcd, 0, 2, 0xa0]);
    stream.reset();
    consume_header(&mut stream).unwrap();
    assert_eq!(read_query(&mut stream).unwrap(), ("", 0));

    let mut stream = SlotStream::from_bytes(vec![1; 8]);
    prepare_error(&mut stream, "").unwrap();
    assert_eq!(&stream.as_bytes()[..7], &[1, 2, 1, 0xcd, 0, 2, 0xa0]);
    stream.reset();
    consume_header(&mut stream).unwrap();
    assert_eq!(read_error(&mut stream).unwrap(), "");

    let mut stream = SlotStream::from_bytes(vec![1; 7]);
    assert_eq!(prepare_error(&mut stream, "").unwrap_err(), FusionError::PayloadTooLarge(2));
    assert_eq!(stream.as_bytes(), &[1; 7]);
}

#[test]
fn error_text_over_the_payload_limit_is_refused() {
    let mut stream = SlotStream::from_bytes(vec![1; 32]);
    let message = "m".repeat(25);
    assert_eq!(prepare_error(&mut stream, &message).unwrap_err(), FusionError::PayloadTooLarge(27));
    assert_eq!(stream.as_bytes(), &[1; 32]);
    prepare_error(&mut stream, &message[..24]).unwrap();
    assert_eq!(stream.position(), 31);
}

#[test]
fn read_query_leaves_the_cursor_at_the_text() {
    let mut stream = SlotStream::from_bytes(vec![1; 32]);
    prepare_query(&mut stream, "SELECT 1").unwrap();
    stream.reset();
    consume_header(&mut stream).unwrap();
    read_query(&mut stream).unwrap();
    assert_eq!(stream.position(), 7);
    assert_eq!(stream.look_ahead(8).unwrap(), b"SELECT 1");
}

#[test]
fn text_that_is_not_utf8_is_refused() {
    let mut stream = SlotStream::from_bytes(vec![0xa2, 0xc3, 0x28]);
    assert_eq!(read_query(&mut stream).unwrap_err(), FusionError::InvalidUtf8);
    let mut stream = SlotStream::from_bytes(vec![0xa2, 0xc3, 0x28]);
    assert_eq!(read_error(&mut stream).unwrap_err(), FusionError::InvalidUtf8);
    // the text is cut short
    let mut stream = SlotStream::from_bytes(vec![0xa3, b'a', b'b']);
    assert_eq!(read_query(&mut stream).unwrap_err(), FusionError::SlotOverflow);
}

#[test]
fn length_that_does_not_fit_the_header_is_refused() {
    let capacity = 70000;
    let mut stream = SlotStream::from_bytes(vec![1; capacity]);
    let text = "q".repeat(65534);
    assert_eq!(prepare_query(&mut stream, &text).unwrap_err(), FusionError::ValueTooLarge);
    assert_eq!(stream.as_bytes(), vec![1; capacity].as_slice());
    prepare_query(&mut stream, &text[..65533]).unwrap();
    stream.reset();
    assert_eq!(consume_header(&mut stream).unwrap().length, u16::MAX);

    // a payload measured after it was written
    let mut stream = SlotStream::from_bytes(vec![1; capacity]);
    let params = [ScalarValue::Utf8(Some("p".repeat(65530)))];
    assert_eq!(prepare_params(&mut stream, &params).unwrap_err(), FusionError::ValueTooLarge);
    assert_eq!(&stream.as_bytes()[..6], &[0, 0, 1, 0xcd, 0, 0]);
    let params = [ScalarValue::Utf8(Some("p".repeat(65529)))];
    prepare_params(&mut stream, &params).unwrap();
    assert_eq!(stream.position(), 6 + 65535);
    stream.reset();
    assert_eq!(consume_header(&mut stream).unwrap().length, u16::MAX);
}

#[test]
fn payload_that_does_not_fit_the_slot_leaves_the_placeholder() {
    let t = TableReference::bare("a_table_with_a_long_name");
    let mut stream = SlotStream::from_bytes(vec![1; 20]);
    assert_eq!(prepare_table_refs(&mut stream, &[&t]).unwrap_err(), FusionError::SlotOverflow);
    assert_eq!(stream.capacity(), 20);
    assert_eq!(&stream.as_bytes()[..6], &[0, 0, 1, 0xcd, 0, 0]);
    // a slot without room for a header
    let mut stream = SlotStream::from_bytes(vec![1; 5]);
    assert_eq!(prepare_table_refs(&mut stream, &[]).unwrap_err(), FusionError::SlotOverflow);
    assert_eq!(prepare_params(&mut stream, &[]).unwrap_err(), FusionError::SlotOverflow);
}

#[test]
fn table_refs_near_the_payload_limit() {
    let capacity = 6 + 1 + 1 + 2 + 200 + 1;
    let name = "n".repeat(200);
    let t = TableReference::bare(&name);
    let mut stream = SlotStream::from_bytes(vec![1; capacity]);
    prepare_table_refs(&mut stream, &[&t]).unwrap();
    assert_eq!(stream.position(), capacity);
    stream.reset();
    let header = consume_header(&mut stream).unwrap();
    assert_eq!(header.length as usize, capacity - 6);
    assert_eq!(read_table_refs(&mut stream).unwrap(), vec![TableReference::bare(&name)]);
    let mut stream = SlotStream::from_bytes(vec![1; capacity - 1]);
    assert_eq!(prepare_table_refs(&mut stream, &[&t]).unwrap_err(), FusionError::SlotOverflow);
}

#[test]
fn table_reference_of_other_size_is_refused() {
    let mut stream = SlotStream::from_bytes(vec![0x91, 0x93]);
    assert_eq!(
        read_table_refs(&mut stream).unwrap_err(),
        FusionError::Deserialize("table reference".to_string(), 3)
    );
}
