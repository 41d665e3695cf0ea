use slot_protocol::error::FusionError;
use slot_protocol::ipc::SlotStream;
use slot_protocol::protocol::{
    consume_header, prepare_error, prepare_query, read_error, read_query, write_header,
    Direction, Flag, Header, Packet,
};

const SLOT_SIZE: usize = 8204;

fn slot() -> SlotStream {
    SlotStream::from_bytes(vec![1; SLOT_SIZE])
}

#[test]
fn test_header() {
    let header = Header {
        direction: Direction::ToWorker,
        packet: Packet::Ack,
        length: 42,
        flag: Flag::Last,
    };
    let mut stream = slot();
    write_header(&mut stream, &header).unwrap();
    assert_eq!(stream.position(), 6);
    assert_eq!(&stream.as_bytes()[..6], &[0, 0, 1, 0xcd, 0, 42]);
    stream.reset();
    let new_header = consume_header(&mut stream).unwrap();
    assert_eq!(header, new_header);
}

#[test]
fn test_query() {
    let sql = "SELECT 1";
    let mut stream = slot();
    prepare_query(&mut stream, sql).unwrap();
    stream.reset();
    let header = consume_header(&mut stream).unwrap();
    assert_eq!(header.direction, Direction::ToWorker);
    assert_eq!(header.packet, Packet::Parse);
    assert_eq!(header.flag, Flag::Last);
    assert_eq!(header.length, 2 + sql.len() as u16);
    let (query, len) = read_query(&mut stream).unwrap();
    assert_eq!(query, sql);
    assert_eq!(len as usize, sql.len());
}

#[test]
fn test_error() {
    let message = "An error occurred";
    let mut stream = slot();
    prepare_error(&mut stream, message).unwrap();
    stream.reset();
    let header = consume_header(&mut stream).unwrap();
    assert_eq!(header.direction, Direction::ToBackend);
    assert_eq!(header.packet, Packet::Failure);
    assert_eq!(header.flag, Flag::Last);
    assert_eq!(header.length, 2 + message.len() as u16);
    let error = read_error(&mut stream).unwrap();
    assert_eq!(error, message);
}

#[test]
fn header_tags_out_of_range() {
    for (at, field, bad) in [(0usize, "direction", 2u8), (1, "packet", 5), (2, "flag", 2)] {
        let mut bytes = vec![0u8, 0, 0, 0xcd, 0, 0];
        bytes[at] = bad;
        let mut stream = SlotStream::from_bytes(bytes);
        let err = consume_header(&mut stream).unwrap_err();
        assert_eq!(err, FusionError::Deserialize(field.to_string(), bad as u64));
    }
}
