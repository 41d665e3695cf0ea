use slot_protocol::data_type::{read_scalar_value, write_scalar_value, EncodedType, ScalarValue};
use slot_protocol::error::FusionError;
use slot_protocol::ipc::SlotStream;
use slot_protocol::protocol::{
    consume_header, prepare_params, read_params, Direction, Flag, Packet,
};

const SLOT_SIZE: usize = 8204;

#[test]
fn test_params() {
    let mut stream = SlotStream::from_bytes(vec![1; SLOT_SIZE]);
    let first = ScalarValue::Int32(Some(1));
    let second = ScalarValue::Int32(None);
    prepare_params(&mut stream, &[first, second]).unwrap();
    stream.reset();
    let header = consume_header(&mut stream).unwrap();
    assert_eq!(header.direction, Direction::ToWorker);
    assert_eq!(header.packet, Packet::Bind);
    assert_eq!(header.flag, Flag::Last);
    let params = read_params(&mut stream).unwrap();
    assert_eq!(params.len(), 2);
    assert_eq!(params[0], ScalarValue::Int32(Some(1)));
    assert_eq!(params[1], ScalarValue::Int32(None));
}

#[test]
fn params_bytes_are_exact() {
    let mut stream = SlotStream::from_bytes(vec![1; 32]);
    prepare_params(&mut stream, &[ScalarValue::Int32(Some(1)), ScalarValue::Int32(None)]).unwrap();
    let end = stream.position();
    assert_eq!(
        &stream.as_bytes()[..end],
        &[0, 1, 1, 0xcd, 0, 10, 0x92, 3, 0xc3, 0xce, 0, 0, 0, 1, 3, 0xc2]
    );
    assert_eq!(stream.as_bytes()[end], 1);
}

#[test]
fn empty_params_round_trip() {
    let mut stream = SlotStream::from_bytes(vec![1; 7]);
    prepare_params(&mut stream, &[]).unwrap();
    assert_eq!(stream.as_bytes(), &[0, 1, 1, 0xcd, 0, 1, 0x90]);
    stream.reset();
    let header = consume_header(&mut stream).unwrap();
    assert_eq!(header.length, 1);
    assert_eq!(read_params(&mut stream).unwrap(), vec![]);
    assert_eq!(stream.position(), 7);
}

#[test]
fn every_scalar_type_round_trips() {
    let values = vec![
        ScalarValue::Boolean(Some(true)),
        ScalarValue::Boolean(Some(false)),
        ScalarValue::Boolean(None),
        ScalarValue::Utf8(Some("héllo".to_string())),
        ScalarValue::Utf8(Some(String::new())),
        ScalarValue::Utf8(None),
        ScalarValue::Int16(Some(-2)),
        ScalarValue::Int16(Some(i16::MIN)),
        ScalarValue::Int16(None),
        ScalarValue::Int32(Some(-1)),
        ScalarValue::Int32(Some(i32::MAX)),
        ScalarValue::Int64(Some(i64::MIN)),
        ScalarValue::Int64(Some(0x0102_0304_0506_0708)),
        ScalarValue::Int64(None),
        ScalarValue::Float32(Some(1.5f32.to_bits())),
        ScalarValue::Float32(None),
        ScalarValue::Float64(Some((-0.25f64).to_bits())),
        ScalarValue::Float64(None),
    ];
    let mut stream = SlotStream::from_bytes(vec![1; 256]);
    prepare_params(&mut stream, &values).unwrap();
    let end = stream.position();
    stream.reset();
    let header = consume_header(&mut stream).unwrap();
    assert_eq!(header.length as usize, end - 6);
    let read = read_params(&mut stream).unwrap();
    assert_eq!(read, values);
    assert_eq!(stream.position(), end);
    match &read[14] {
        ScalarValue::Float32(Some(bits)) => assert_eq!(f32::from_bits(*bits), 1.5),
        other => panic!("unexpected {:?}", other),
    }
}

#[test]
fn scalar_bytes_are_exact() {
    let mut stream = SlotStream::new(64);
    write_scalar_value(&mut stream, &ScalarValue::Int16(Some(-2))).unwrap();
    write_scalar_value(&mut stream, &ScalarValue::Int64(Some(0x0102_0304_0506_0708))).unwrap();
    write_scalar_value(&mut stream, &ScalarValue::Utf8(Some("ab".to_string()))).unwrap();
    write_scalar_value(&mut stream, &ScalarValue::Boolean(Some(true))).unwrap();
    let end = stream.position();
    assert_eq!(
        &stream.as_bytes()[..end],
        &[
            2, 0xc3, 0xcd, 0xff, 0xfe, // Int16(-2)
            4, 0xc3, 0xcf, 1, 2, 3, 4, 5, 6, 7, 8, // Int64
            1, 0xc3, 0xa2, b'a', b'b', // Utf8
            0, 0xc3, 0xc3, // Boolean(true)
        ]
    );
    stream.reset();
    assert_eq!(read_scalar_value(&mut stream).unwrap(), ScalarValue::Int16(Some(-2)));
    assert_eq!(stream.position(), 5);
}

#[test]
fn scalar_with_unknown_type_is_refused() {
    let mut stream = SlotStream::from_bytes(vec![7, 0xc2]);
    assert_eq!(
        read_scalar_value(&mut stream).unwrap_err(),
        FusionError::Deserialize("encoded type".to_string(), 7)
    );
}

#[test]
fn scalar_type_byte_above_the_small_numbers_is_out_of_range() {
    let mut stream = SlotStream::from_bytes(vec![0x90, 0xc2]);
    assert_eq!(
        read_scalar_value(&mut stream).unwrap_err(),
        FusionError::Deserialize("encoded type".to_string(), 0x90)
    );
}

#[test]
fn scalar_with_invalid_text_is_refused() {
    let mut stream = SlotStream::from_bytes(vec![1, 0xc3, 0xa2, 0xff, 0xfe]);
    assert_eq!(read_scalar_value(&mut stream).unwrap_err(), FusionError::InvalidUtf8);
}

#[test]
fn encoded_type_of_catalog_types() {
    assert_eq!(EncodedType::try_from(16).unwrap(), EncodedType::Boolean);
    assert_eq!(EncodedType::try_from(25).unwrap(), EncodedType::Utf8);
    assert_eq!(EncodedType::try_from(1043).unwrap(), EncodedType::Utf8);
    assert_eq!(EncodedType::try_from(21).unwrap(), EncodedType::Int16);
    assert_eq!(EncodedType::try_from(23).unwrap(), EncodedType::Int32);
    assert_eq!(EncodedType::try_from(20).unwrap(), EncodedType::Int64);
    assert_eq!(EncodedType::try_from(700).unwrap(), EncodedType::Float32);
    assert_eq!(EncodedType::try_from(701).unwrap(), EncodedType::Float64);
    assert_eq!(EncodedType::try_from(1700).unwrap_err(), FusionError::UnsupportedType(1700));
    for tag in 0u8..7 {
        assert_eq!(EncodedType::from_u8(tag).unwrap().to_u8(), tag);
    }
    assert_eq!(
        EncodedType::from_u8(7).unwrap_err(),
        FusionError::Deserialize("encoded type".to_string(), 7)
    );
}
