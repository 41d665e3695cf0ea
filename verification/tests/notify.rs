use slot_protocol::catalog::Relation;
use slot_protocol::data_type::ScalarValue;
use slot_protocol::error::FusionError;
use slot_protocol::ipc::SlotStream;
use slot_protocol::protocol::{
    consume_header, send_error, send_metadata, send_params, send_query, send_table_refs, signal,
    Direction, Packet, Wakeup,
};
use slot_protocol::table_ref::TableReference;

#[test]
fn signal_goes_by_direction() {
    assert_eq!(signal(3, Direction::ToWorker), Wakeup::Worker);
    assert_eq!(signal(3, Direction::ToBackend), Wakeup::SlotOwner(3));
}

#[test]
fn sends_wake_the_reader() {
    let sent = send_query(7, SlotStream::new(64), "SELECT 1");
    assert_eq!(sent.outcome, Ok(Wakeup::Worker));
    let mut stream = sent.stream;
    stream.reset();
    assert_eq!(consume_header(&mut stream).unwrap().packet, Packet::Parse);

    let sent = send_params(7, SlotStream::new(64), &[ScalarValue::Int32(Some(1))]);
    assert_eq!(sent.outcome, Ok(Wakeup::Worker));

    let sent = send_error(7, SlotStream::new(64), "no");
    assert_eq!(sent.outcome, Ok(Wakeup::SlotOwner(7)));
    let mut stream = sent.stream;
    stream.reset();
    assert_eq!(consume_header(&mut stream).unwrap().direction, Direction::ToBackend);

    let t = TableReference::bare("t");
    let sent = send_table_refs(7, SlotStream::new(64), &[&t]);
    assert_eq!(sent.outcome, Ok(Wakeup::SlotOwner(7)));

    let sent = send_metadata(7, SlotStream::new(64), &[Relation { oid: 1, attributes: vec![] }]);
    assert_eq!(sent.outcome, Ok(Wakeup::Worker));
}

#[test]
fn failed_send_wakes_nobody_and_hands_the_slot_back() {
    let sent = send_query(7, SlotStream::new(8), "SELECT 1");
    assert_eq!(sent.outcome, Err(FusionError::PayloadTooLarge(10)));
    assert_eq!(sent.stream.as_bytes(), &[0; 8]);
    let sent = send_error(7, SlotStream::from_bytes(vec![5; 9]), "too long");
    assert_eq!(sent.outcome, Err(FusionError::PayloadTooLarge(10)));
    assert_eq!(sent.stream.as_bytes(), &[5; 9]);
    let sent = send_params(7, SlotStream::new(3), &[]);
    assert_eq!(sent.outcome, Err(FusionError::SlotOverflow));
}
