use slot_protocol::ipc::SlotStream;
use slot_protocol::protocol::{
    consume_header, prepare_table_refs, read_table_refs, Direction, Flag, Packet,
};
use slot_protocol::table_ref::TableReference;
use slot_protocol::wire::{read_array_len, read_bin_len};

#[test]
fn test_table_request() {
    let mut stream = SlotStream::from_bytes(vec![1; 8204]);
    let t1 = TableReference::bare("table1");
    let t2 = TableReference::partial("schema", "table2");
    let tables = vec![&t1, &t2];
    prepare_table_refs(&mut stream, &tables).unwrap();
    let end = stream.position();
    stream.reset();
    let header = consume_header(&mut stream).unwrap();
    assert_eq!(header.direction, Direction::ToBackend);
    assert_eq!(header.packet, Packet::Metadata);
    assert_eq!(header.flag, Flag::Last);
    assert_eq!(header.length as usize, end - 6);

    let table_num = read_array_len(&mut stream).unwrap();
    assert_eq!(table_num, 2);
    // table1
    let elem_num = read_array_len(&mut stream).unwrap();
    assert_eq!(elem_num, 1);
    let t1_len = read_bin_len(&mut stream).unwrap();
    assert_eq!(t1_len as usize, "table1".len() + 1);
    let t1 = stream.look_ahead(t1_len as usize).unwrap();
    assert_eq!(t1, b"table1\0");
    stream.rewind(t1_len as usize).unwrap();
    // schema.table2
    let elem_num = read_array_len(&mut stream).unwrap();
    assert_eq!(elem_num, 2);
    let s_len = read_bin_len(&mut stream).unwrap();
    assert_eq!(s_len as usize, "schema".len() + 1);
    let s = stream.look_ahead(s_len as usize).unwrap();
    assert_eq!(s, b"schema\0");
    stream.rewind(s_len as usize).unwrap();
    let t2_len = read_bin_len(&mut stream).unwrap();
    assert_eq!(t2_len as usize, "table2".len() + 1);
    let t2 = stream.look_ahead(t2_len as usize).unwrap();
    assert_eq!(t2, b"table2\0");
    stream.rewind(t2_len as usize).unwrap();
    assert_eq!(stream.position(), end);
}

#[test]
fn table_refs_round_trip() {
    let mut stream = SlotStream::from_bytes(vec![1; 64]);
    let t1 = TableReference::bare("t");
    let t2 = TableReference::full("cat", "s", "u");
    prepare_table_refs(&mut stream, &[&t1, &t2]).unwrap();
    stream.reset();
    consume_header(&mut stream).unwrap();
    let tables = read_table_refs(&mut stream).unwrap();
    assert_eq!(tables, vec![TableReference::bare("t"), TableReference::partial("s", "u")]);
}
