use slot_protocol::error::FusionError;
use slot_protocol::ipc::SlotStream;
use slot_protocol::table_ref::{read_c_str, write_c_str};
use slot_protocol::wire::{
    read_array_len, read_bin_len, read_bool, read_pfix, read_str_len, read_u16, read_u32,
    read_u64, read_u8, write_array_len, write_bin_len, write_bool, write_pfix, write_raw,
    write_str, write_u16, write_u32, write_u64, write_u8,
};

fn written(write: impl Fn(&mut SlotStream) -> Result<(), FusionError>) -> Vec<u8> {
    let mut stream = SlotStream::from_bytes(vec![0xee; 70000]);
    write(&mut stream).unwrap();
    let end = stream.position();
    assert_eq!(stream.capacity(), 70000);
    assert_eq!(stream.as_bytes()[end], 0xee);
    stream.as_bytes()[..end].to_vec()
}

#[test]
fn integers_are_written_big_endian() {
    assert_eq!(written(|s| write_pfix(s, 0x7f)), vec![0x7f]);
    assert_eq!(written(|s| write_u8(s, 0x2a)), vec![0xcc, 0x2a]);
    assert_eq!(written(|s| write_u16(s, 0x0102)), vec![0xcd, 1, 2]);
    assert_eq!(written(|s| write_u32(s, 0x0102_0304)), vec![0xce, 1, 2, 3, 4]);
    assert_eq!(
        written(|s| write_u64(s, 0x0102_0304_0506_0708)),
        vec![0xcf, 1, 2, 3, 4, 5, 6, 7, 8]
    );
    assert_eq!(written(|s| write_bool(s, true)), vec![0xc3]);
    assert_eq!(written(|s| write_bool(s, false)), vec![0xc2]);
}

#[test]
fn lengths_take_the_shortest_form() {
    assert_eq!(written(|s| write_array_len(s, 15)), vec![0x9f]);
    assert_eq!(written(|s| write_array_len(s, 16)), vec![0xdc, 0, 16]);
    assert_eq!(written(|s| write_array_len(s, 0x1_0000)), vec![0xdd, 0, 1, 0, 0]);
    assert_eq!(written(|s| write_bin_len(s, 255)), vec![0xc4, 255]);
    assert_eq!(written(|s| write_bin_len(s, 256)), vec![0xc5, 1, 0]);
    assert_eq!(written(|s| write_bin_len(s, 0x1_0000)), vec![0xc6, 0, 1, 0, 0]);
    assert_eq!(written(|s| write_str(s, "")), vec![0xa0]);
    assert_eq!(written(|s| write_str(s, "abc")), vec![0xa3, b'a', b'b', b'c']);
    let text = "x".repeat(32);
    assert_eq!(&written(|s| write_str(s, &text))[..2], &[0xd9, 32]);
    let text = "x".repeat(256);
    assert_eq!(&written(|s| write_str(s, &text))[..3], &[0xda, 1, 0]);
    let text = "x".repeat(0x1_0000);
    let bytes = written(|s| write_str(s, &text));
    assert_eq!(&bytes[..5], &[0xdb, 0, 1, 0, 0]);
    assert_eq!(bytes.len(), 5 + 0x1_0000);
}

#[test]
fn items_are_read_back() {
    let mut stream = SlotStream::new(64);
    write_pfix(&mut stream, 5).unwrap();
    write_u8(&mut stream, 200).unwrap();
    write_u16(&mut stream, 60000).unwrap();
    write_u32(&mut stream, 4_000_000_000).unwrap();
    write_u64(&mut stream, u64::MAX - 1).unwrap();
    write_bool(&mut stream, true).unwrap();
    write_array_len(&mut stream, 70000).unwrap();
    write_bin_len(&mut stream, 300).unwrap();
    write_str(&mut stream, "é").unwrap();
    let end = stream.position();
    stream.reset();
    assert_eq!(read_pfix(&mut stream).unwrap(), 5);
    assert_eq!(read_u8(&mut stream).unwrap(), 200);
    assert_eq!(read_u16(&mut stream).unwrap(), 60000);
    assert_eq!(read_u32(&mut stream).unwrap(), 4_000_000_000);
    assert_eq!(read_u64(&mut stream).unwrap(), u64::MAX - 1);
    assert!(read_bool(&mut stream).unwrap());
    assert_eq!(read_array_len(&mut stream).unwrap(), 70000);
    assert_eq!(read_bin_len(&mut stream).unwrap(), 300);
    assert_eq!(read_str_len(&mut stream).unwrap(), 2);
    assert_eq!(stream.look_ahead(2).unwrap(), "é".as_bytes());
    stream.rewind(2).unwrap();
    assert_eq!(stream.position(), end);
}

#[test]
fn reading_fails_as_the_input_does() {
    // nothing ahead
    let mut stream = SlotStream::new(0);
    assert_eq!(read_u16(&mut stream).unwrap_err(), FusionError::InvalidMarkerRead);
    assert_eq!(read_pfix(&mut stream).unwrap_err(), FusionError::InvalidMarkerRead);
    assert_eq!(read_bool(&mut stream).unwrap_err(), FusionError::InvalidMarkerRead);
    // the data is cut short
    let mut stream = SlotStream::from_bytes(vec![0xcd, 1]);
    assert_eq!(read_u16(&mut stream).unwrap_err(), FusionError::InvalidDataRead);
    assert_eq!(stream.position(), 0);
    let mut stream = SlotStream::from_bytes(vec![0xda, 1]);
    assert_eq!(read_str_len(&mut stream).unwrap_err(), FusionError::InvalidDataRead);
    // another type stands there
    let mut stream = SlotStream::from_bytes(vec![0xcd, 1, 2]);
    assert_eq!(read_u32(&mut stream).unwrap_err(), FusionError::TypeMismatch(0xcd));
    assert_eq!(read_u8(&mut stream).unwrap_err(), FusionError::TypeMismatch(0xcd));
    assert_eq!(read_u64(&mut stream).unwrap_err(), FusionError::TypeMismatch(0xcd));
    assert_eq!(read_pfix(&mut stream).unwrap_err(), FusionError::TypeMismatch(0xcd));
    assert_eq!(read_bool(&mut stream).unwrap_err(), FusionError::TypeMismatch(0xcd));
    assert_eq!(read_array_len(&mut stream).unwrap_err(), FusionError::TypeMismatch(0xcd));
    assert_eq!(read_bin_len(&mut stream).unwrap_err(), FusionError::TypeMismatch(0xcd));
    assert_eq!(read_str_len(&mut stream).unwrap_err(), FusionError::TypeMismatch(0xcd));
    assert_eq!(read_u16(&mut stream).unwrap(), 0x0102);
}

#[test]
fn writing_stops_at_the_end_of_the_slot() {
    let mut stream = SlotStream::from_bytes(vec![9; 4]);
    assert_eq!(write_u32(&mut stream, 1).unwrap_err(), FusionError::SlotOverflow);
    assert_eq!(stream.as_bytes(), &[9, 9, 9, 9]);
    assert_eq!(stream.position(), 0);
    write_u16(&mut stream, 1).unwrap();
    assert_eq!(write_u8(&mut stream, 1).unwrap_err(), FusionError::SlotOverflow);
    write_bool(&mut stream, false).unwrap();
    assert_eq!(write_pfix(&mut stream, 1).unwrap_err(), FusionError::SlotOverflow);
    assert_eq!(write_raw(&mut stream, &[1]).unwrap_err(), FusionError::SlotOverflow);
    write_raw(&mut stream, &[]).unwrap();
    assert_eq!(stream.as_bytes(), &[0xcd, 0, 1, 0xc2]);
}

#[test]
fn cursor_operations() {
    let mut stream = SlotStream::from_bytes(vec![1, 2, 3, 4]);
    assert_eq!(stream.capacity(), 4);
    assert_eq!(stream.remaining(), 4);
    assert_eq!(stream.look_ahead(4).unwrap(), &[1, 2, 3, 4]);
    assert_eq!(stream.look_ahead(5).unwrap_err(), FusionError::SlotOverflow);
    stream.rewind(3).unwrap();
    assert_eq!(stream.position(), 3);
    assert_eq!(stream.peek_rest(), &[4]);
    assert_eq!(stream.rewind(2).unwrap_err(), FusionError::SlotOverflow);
    assert_eq!(stream.position(), 3);
    stream.write_bytes(&[9]).unwrap();
    assert_eq!(stream.remaining(), 0);
    stream.reset();
    assert_eq!(stream.position(), 0);
    assert_eq!(stream.into_bytes(), vec![1, 2, 3, 9]);
    assert_eq!(SlotStream::new(3).as_bytes(), &[0, 0, 0]);
}

#[test]
fn text_that_ends_in_a_zero_byte() {
    let mut stream = SlotStream::new(16);
    write_c_str(&mut stream, "table1").unwrap();
    assert_eq!(stream.position(), 9);
    assert_eq!(&stream.as_bytes()[..9], b"\xc4\x07table1\0");
    stream.reset();
    assert_eq!(read_c_str(&mut stream).unwrap(), "table1");
    assert_eq!(stream.position(), 9);
    // no zero byte at the end
    let mut stream = SlotStream::from_bytes(vec![0xc4, 2, b'a', b'b']);
    assert_eq!(read_c_str(&mut stream).unwrap_err(), FusionError::MissingTerminator);
    let mut stream = SlotStream::from_bytes(vec![0xc4, 0]);
    assert_eq!(read_c_str(&mut stream).unwrap_err(), FusionError::MissingTerminator);
    // the blob is cut short
    let mut stream = SlotStream::from_bytes(vec![0xc4, 3, b'a', 0]);
    assert_eq!(read_c_str(&mut stream).unwrap_err(), FusionError::SlotOverflow);
    // not UTF-8
    let mut stream = SlotStream::from_bytes(vec![0xc4, 2, 0xff, 0]);
    assert_eq!(read_c_str(&mut stream).unwrap_err(), FusionError::InvalidUtf8);
}
