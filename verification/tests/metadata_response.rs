use slot_protocol::catalog::{
    read_column, serialize_table, Attribute, Column, Relation, Table,
};
use slot_protocol::data_type::EncodedType;
use slot_protocol::error::FusionError;
use slot_protocol::ipc::SlotStream;
use slot_protocol::protocol::{
    consume_header, prepare_metadata, prepare_table_refs, read_metadata, read_table_refs,
    Direction, Flag, Packet,
};
use slot_protocol::table_ref::TableReference;
use slot_protocol::wire::{read_array_len, read_bool, read_str_len, read_u32, read_u8};

const SLOT_SIZE: usize = 8204;

fn attribute(name: &str, type_oid: u32, not_null: bool) -> Attribute {
    Attribute { name: name.to_string(), type_oid, not_null, is_dropped: false }
}

fn t1() -> Relation {
    // create table t1(a int not null, b text), after a column was dropped
    Relation {
        oid: 16385,
        attributes: vec![
            attribute("a", 23, true),
            Attribute { name: "gone".to_string(), type_oid: 1700, not_null: false, is_dropped: true },
            attribute("b", 25, false),
        ],
    }
}

#[test]
fn test_metadata_response() {
    let mut stream = SlotStream::from_bytes(vec![1; SLOT_SIZE]);
    prepare_metadata(&[t1()], &mut stream).unwrap();
    stream.reset();
    let header = consume_header(&mut stream).unwrap();
    assert_eq!(header.direction, Direction::ToWorker);
    assert_eq!(header.packet, Packet::Metadata);
    assert_eq!(header.flag, Flag::Last);

    let table_num = read_array_len(&mut stream).unwrap();
    assert_eq!(table_num, 1);
    // t1
    let oid = read_u32(&mut stream).unwrap();
    assert_eq!(oid, 16385);
    let attr_num = read_array_len(&mut stream).unwrap();
    assert_eq!(attr_num, 2);
    // a
    let elem_num = read_array_len(&mut stream).unwrap();
    assert_eq!(elem_num, 3);
    let name_len = read_str_len(&mut stream).unwrap();
    assert_eq!(name_len, "a".len() as u32);
    let name = stream.look_ahead(name_len as usize).unwrap();
    assert_eq!(name, b"a");
    stream.rewind(name_len as usize).unwrap();
    let etype = read_u8(&mut stream).unwrap();
    assert_eq!(etype, EncodedType::Int32.to_u8());
    let is_nullable = read_bool(&mut stream).unwrap();
    assert!(!is_nullable);
    // b
    let elem_num = read_array_len(&mut stream).unwrap();
    assert_eq!(elem_num, 3);
    let name_len = read_str_len(&mut stream).unwrap();
    assert_eq!(name_len, "b".len() as u32);
    let name = stream.look_ahead(name_len as usize).unwrap();
    assert_eq!(name, b"b");
    stream.rewind(name_len as usize).unwrap();
    let etype = read_u8(&mut stream).unwrap();
    assert_eq!(etype, EncodedType::Utf8.to_u8());
    let is_nullable = read_bool(&mut stream).unwrap();
    assert!(is_nullable);
}

#[test]
fn metadata_round_trip() {
    let mut stream = SlotStream::from_bytes(vec![1; 64]);
    prepare_metadata(&[t1(), Relation { oid: 7, attributes: vec![] }], &mut stream).unwrap();
    let end = stream.position();
    assert_eq!(
        &stream.as_bytes()[..end],
        &[
            0, 3, 1, 0xcd, 0, 25, // header
            0x92, // two tables
            0xce, 0, 0, 0x40, 0x01, 0x92, // t1 and the count of its columns
            0x93, 0xa1, b'a', 0xcc, 3, 0xc2, // a
            0x93, 0xa1, b'b', 0xcc, 1, 0xc3, // b
            0xce, 0, 0, 0, 7, 0x90, // a table without columns
        ]
    );
    stream.reset();
    let header = consume_header(&mut stream).unwrap();
    assert_eq!(header.length as usize, end - 6);
    let tables = read_metadata(&mut stream).unwrap();
    assert_eq!(
        tables,
        vec![
            Table {
                id: 16385,
                columns: vec![
                    Column { name: "a".to_string(), etype: EncodedType::Int32, is_nullable: false },
                    Column { name: "b".to_string(), etype: EncodedType::Utf8, is_nullable: true },
                ],
            },
            Table { id: 7, columns: vec![] },
        ]
    );
    assert_eq!(stream.position(), end);
}

#[test]
fn unsupported_column_type_is_refused() {
    let relation = Relation { oid: 1, attributes: vec![attribute("n", 1700, false)] };
    let mut stream = SlotStream::from_bytes(vec![1; 64]);
    let err = prepare_metadata(&[relation], &mut stream).unwrap_err();
    assert_eq!(err, FusionError::UnsupportedType(1700));
    // the slot still starts with the placeholder header
    assert_eq!(&stream.as_bytes()[..6], &[0, 0, 1, 0xcd, 0, 0]);
}

#[test]
fn column_of_wrong_size_is_refused() {
    let mut stream = SlotStream::from_bytes(vec![0x92, 0xa1, b'a', 0xcc, 3]);
    assert_eq!(
        read_column(&mut stream).unwrap_err(),
        FusionError::Deserialize("column".to_string(), 2)
    );
}

#[test]
fn serialize_table_skips_dropped_columns() {
    let mut stream = SlotStream::new(32);
    serialize_table(&t1(), &mut stream).unwrap();
    assert_eq!(stream.position(), 18);
    assert_eq!(stream.as_bytes()[5], 0x92);
}

#[test]
fn metadata_layout_is_not_self_describing() {
    // table references, written for the backend
    let mut stream = SlotStream::from_bytes(vec![1; 64]);
    let t1 = TableReference::bare("table1");
    let t2 = TableReference::partial("schema", "table2");
    prepare_table_refs(&mut stream, &[&t1, &t2]).unwrap();
    stream.reset();
    let header = consume_header(&mut stream).unwrap();
    assert_eq!(header.packet, Packet::Metadata);
    assert_eq!(header.direction, Direction::ToBackend);
    assert_eq!(read_table_refs(&mut stream).unwrap().len(), 2);
    // the same bytes, read as table descriptions
    stream.reset();
    consume_header(&mut stream).unwrap();
    assert_eq!(read_metadata(&mut stream).unwrap_err(), FusionError::TypeMismatch(0x91));
    // no references read as no tables
    let mut stream = SlotStream::from_bytes(vec![1; 64]);
    prepare_table_refs(&mut stream, &[]).unwrap();
    stream.reset();
    consume_header(&mut stream).unwrap();
    assert_eq!(read_metadata(&mut stream).unwrap(), vec![]);
}
