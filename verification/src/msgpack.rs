//! The MessagePack forms that the protocol uses, as functions on byte
//! sequences, and the calls into `rmp` that produce and read them.
//!
//! The `encode_*` and `decode_*` functions are the model. The functions at
//! the end of the file are trusted: each makes one call into `rmp` (or `std`)
//! and its contract repeats what that function's source shows. Nothing else
//! in the library is taken on trust.

use crate::error::{ErrorView, FusionError};
use vstd::prelude::*;
use vstd::string::StringSliceAdditionalSpecFns;
use vstd::utf8::valid_utf8;

verus! {

// ---------------------------------------------------------------------------
// Big-endian integers
// ---------------------------------------------------------------------------

/// The two bytes of `v`, most significant first.
pub open spec fn be16(v: u16) -> Seq<u8> {
    seq![(v / 0x100) as u8, (v % 0x100) as u8]
}

/// The four bytes of `v`, most significant first.
pub open spec fn be32(v: u32) -> Seq<u8> {
    seq![
        (v / 0x100_0000) as u8,
        (v / 0x1_0000 % 0x100) as u8,
        (v / 0x100 % 0x100) as u8,
        (v % 0x100) as u8,
    ]
}

/// The eight bytes of `v`, most significant first: those of its upper half,
/// then those of its lower half.
pub open spec fn be64(v: u64) -> Seq<u8> {
    be32((v / 0x1_0000_0000) as u32) + be32((v % 0x1_0000_0000) as u32)
}

/// The integer whose big-endian bytes are `b[at]` and `b[at + 1]`.
pub open spec fn from_be16(b: Seq<u8>, at: int) -> u16 {
    (b[at] * 0x100 + b[at + 1]) as u16
}

/// The integer whose big-endian bytes are `b[at]` to `b[at + 3]`.
pub open spec fn from_be32(b: Seq<u8>, at: int) -> u32 {
    (b[at] * 0x100_0000 + b[at + 1] * 0x1_0000 + b[at + 2] * 0x100 + b[at + 3]) as u32
}

/// The integer whose big-endian bytes are `b[at]` to `b[at + 7]`.
pub open spec fn from_be64(b: Seq<u8>, at: int) -> u64 {
    (from_be32(b, at) * 0x1_0000_0000 + from_be32(b, at + 4)) as u64
}

// ---------------------------------------------------------------------------
// Encoded forms
// ---------------------------------------------------------------------------

/// Marker of the boolean false.
pub const MARKER_FALSE: u8 = 0xc2;

/// Marker of the boolean true.
pub const MARKER_TRUE: u8 = 0xc3;

/// Marker of a blob whose length follows in one byte.
pub const MARKER_BIN8: u8 = 0xc4;

/// Marker of a blob whose length follows in two bytes.
pub const MARKER_BIN16: u8 = 0xc5;

/// Marker of a blob whose length follows in four bytes.
pub const MARKER_BIN32: u8 = 0xc6;

/// Marker of an unsigned byte.
pub const MARKER_U8: u8 = 0xcc;

/// Marker of a 16-bit unsigned integer.
pub const MARKER_U16: u8 = 0xcd;

/// Marker of a 32-bit unsigned integer.
pub const MARKER_U32: u8 = 0xce;

/// Marker of a 64-bit unsigned integer.
pub const MARKER_U64: u8 = 0xcf;

/// Marker of a string whose length follows in one byte.
pub const MARKER_STR8: u8 = 0xd9;

/// Marker of a string whose length follows in two bytes.
pub const MARKER_STR16: u8 = 0xda;

/// Marker of a string whose length follows in four bytes.
pub const MARKER_STR32: u8 = 0xdb;

/// Marker of an array whose length follows in two bytes.
pub const MARKER_ARRAY16: u8 = 0xdc;

/// Marker of an array whose length follows in four bytes.
pub const MARKER_ARRAY32: u8 = 0xdd;

/// First marker of the short strings: the length is added to it.
pub const MARKER_FIXSTR: u8 = 0xa0;

/// First marker of the short arrays: the length is added to it.
pub const MARKER_FIXARRAY: u8 = 0x90;

/// A positive fixint: the value itself, below 128.
pub open spec fn encode_pfix(v: u8) -> Seq<u8> {
    seq![v]
}

/// A boolean: one marker byte.
pub open spec fn encode_bool(v: bool) -> Seq<u8> {
    seq![if v { MARKER_TRUE } else { MARKER_FALSE }]
}

/// An unsigned byte in its two-byte form.
pub open spec fn encode_u8(v: u8) -> Seq<u8> {
    seq![MARKER_U8, v]
}

/// A 16-bit unsigned integer in its three-byte form.
pub open spec fn encode_u16(v: u16) -> Seq<u8> {
    seq![MARKER_U16] + be16(v)
}

/// A 32-bit unsigned integer in its five-byte form.
pub open spec fn encode_u32(v: u32) -> Seq<u8> {
    seq![MARKER_U32] + be32(v)
}

/// A 64-bit unsigned integer in its nine-byte form.
pub open spec fn encode_u64(v: u64) -> Seq<u8> {
    seq![MARKER_U64] + be64(v)
}

/// The prefix of a string of `len` bytes, in the shortest form that holds
/// `len`.
pub open spec fn encode_str_len(len: u32) -> Seq<u8> {
    if len < 32 {
        seq![(MARKER_FIXSTR + len) as u8]
    } else if len < 0x100 {
        seq![MARKER_STR8, len as u8]
    } else if len < 0x1_0000 {
        seq![MARKER_STR16] + be16(len as u16)
    } else {
        seq![MARKER_STR32] + be32(len)
    }
}

/// The prefix of an array of `len` elements, in the shortest form that holds
/// `len`.
pub open spec fn encode_array_len(len: u32) -> Seq<u8> {
    if len < 16 {
        seq![(MARKER_FIXARRAY + len) as u8]
    } else if len < 0x1_0000 {
        seq![MARKER_ARRAY16] + be16(len as u16)
    } else {
        seq![MARKER_ARRAY32] + be32(len)
    }
}

/// The prefix of a binary blob of `len` bytes, in the shortest form that
/// holds `len`.
pub open spec fn encode_bin_len(len: u32) -> Seq<u8> {
    if len < 0x100 {
        seq![MARKER_BIN8, len as u8]
    } else if len < 0x1_0000 {
        seq![MARKER_BIN16] + be16(len as u16)
    } else {
        seq![MARKER_BIN32] + be32(len)
    }
}

/// A string: its length prefix, then its bytes. Defined for texts whose
/// length fits 32 bits.
pub open spec fn encode_str(text: Seq<u8>) -> Seq<u8> {
    encode_str_len(text.len() as u32) + text
}

// ---------------------------------------------------------------------------
// Decoding
// ---------------------------------------------------------------------------

/// What reading one item from the front of a byte sequence gives: the value
/// and the number of bytes it took, or the error.
pub type Decoded<T> = Result<(T, int), ErrorView>;

/// Reading an item that is a marker `marker` followed by `width` bytes of
/// data: the number of bytes taken, or the error.
pub open spec fn decode_marked(b: Seq<u8>, marker: u8, width: int) -> Result<int, ErrorView> {
    if b.len() == 0 {
        Err(ErrorView::InvalidMarkerRead)
    } else if b[0] != marker {
        Err(ErrorView::TypeMismatch(b[0]))
    } else if b.len() < 1 + width {
        Err(ErrorView::InvalidDataRead)
    } else {
        Ok(1 + width)
    }
}

/// Reading a positive fixint: one byte below 128.
pub open spec fn decode_pfix(b: Seq<u8>) -> Decoded<u8> {
    if b.len() == 0 {
        Err(ErrorView::InvalidMarkerRead)
    } else if b[0] < 0x80 {
        Ok((b[0], 1))
    } else {
        Err(ErrorView::TypeMismatch(b[0]))
    }
}

/// Reading a boolean: the marker of true or that of false.
pub open spec fn decode_bool(b: Seq<u8>) -> Decoded<bool> {
    if b.len() == 0 {
        Err(ErrorView::InvalidMarkerRead)
    } else if b[0] == MARKER_TRUE {
        Ok((true, 1))
    } else if b[0] == MARKER_FALSE {
        Ok((false, 1))
    } else {
        Err(ErrorView::TypeMismatch(b[0]))
    }
}

/// Reading an unsigned byte in its two-byte form.
pub open spec fn decode_u8(b: Seq<u8>) -> Decoded<u8> {
    match decode_marked(b, MARKER_U8, 1) {
        Ok(n) => Ok((b[1], n)),
        Err(e) => Err(e),
    }
}

/// Reading a 16-bit unsigned integer in its three-byte form.
pub open spec fn decode_u16(b: Seq<u8>) -> Decoded<u16> {
    match decode_marked(b, MARKER_U16, 2) {
        Ok(n) => Ok((from_be16(b, 1), n)),
        Err(e) => Err(e),
    }
}

/// Reading a 32-bit unsigned integer in its five-byte form.
pub open spec fn decode_u32(b: Seq<u8>) -> Decoded<u32> {
    match decode_marked(b, MARKER_U32, 4) {
        Ok(n) => Ok((from_be32(b, 1), n)),
        Err(e) => Err(e),
    }
}

/// Reading a 64-bit unsigned integer in its nine-byte form.
pub open spec fn decode_u64(b: Seq<u8>) -> Decoded<u64> {
    match decode_marked(b, MARKER_U64, 8) {
        Ok(n) => Ok((from_be64(b, 1), n)),
        Err(e) => Err(e),
    }
}

/// Reading a length that follows its marker in one, two or four bytes.
pub open spec fn decode_len_data(b: Seq<u8>, width: int) -> Decoded<u32> {
    if b.len() < 1 + width {
        Err(ErrorView::InvalidDataRead)
    } else if width == 1 {
        Ok((b[1] as u32, 2))
    } else if width == 2 {
        Ok((from_be16(b, 1) as u32, 3))
    } else {
        Ok((from_be32(b, 1), 5))
    }
}

/// Reading the prefix of a string, in any of its four forms.
pub open spec fn decode_str_len(b: Seq<u8>) -> Decoded<u32> {
    if b.len() == 0 {
        Err(ErrorView::InvalidMarkerRead)
    } else if MARKER_FIXSTR <= b[0] < MARKER_FIXSTR + 32 {
        Ok(((b[0] - MARKER_FIXSTR) as u32, 1))
    } else if b[0] == MARKER_STR8 {
        decode_len_data(b, 1)
    } else if b[0] == MARKER_STR16 {
        decode_len_data(b, 2)
    } else if b[0] == MARKER_STR32 {
        decode_len_data(b, 4)
    } else {
        Err(ErrorView::TypeMismatch(b[0]))
    }
}

/// Reading the prefix of an array, in any of its three forms.
pub open spec fn decode_array_len(b: Seq<u8>) -> Decoded<u32> {
    if b.len() == 0 {
        Err(ErrorView::InvalidMarkerRead)
    } else if MARKER_FIXARRAY <= b[0] < MARKER_FIXARRAY + 16 {
        Ok(((b[0] - MARKER_FIXARRAY) as u32, 1))
    } else if b[0] == MARKER_ARRAY16 {
        decode_len_data(b, 2)
    } else if b[0] == MARKER_ARRAY32 {
        decode_len_data(b, 4)
    } else {
        Err(ErrorView::TypeMismatch(b[0]))
    }
}

/// Reading the prefix of a binary blob, in any of its three forms.
pub open spec fn decode_bin_len(b: Seq<u8>) -> Decoded<u32> {
    if b.len() == 0 {
        Err(ErrorView::InvalidMarkerRead)
    } else if b[0] == MARKER_BIN8 {
        decode_len_data(b, 1)
    } else if b[0] == MARKER_BIN16 {
        decode_len_data(b, 2)
    } else if b[0] == MARKER_BIN32 {
        decode_len_data(b, 4)
    } else {
        Err(ErrorView::TypeMismatch(b[0]))
    }
}

// ---------------------------------------------------------------------------
// Reading back what was written
// ---------------------------------------------------------------------------

/// Two big-endian bytes give back the integer they were made from.
pub proof fn lemma_be16_round_trip(v: u16, b: Seq<u8>, at: int)
    requires
        0 <= at,
        at + 2 <= b.len(),
        b.subrange(at, at + 2) == be16(v),
    ensures
        from_be16(b, at) == v,
{
    let s = b.subrange(at, at + 2);
    assert(s[0] == b[at] && s[1] == b[at + 1]);
}

/// Four big-endian bytes give back the integer they were made from.
pub proof fn lemma_be32_round_trip(v: u32, b: Seq<u8>, at: int)
    requires
        0 <= at,
        at + 4 <= b.len(),
        b.subrange(at, at + 4) == be32(v),
    ensures
        from_be32(b, at) == v,
{
    let s = b.subrange(at, at + 4);
    assert(s[0] == b[at] && s[1] == b[at + 1] && s[2] == b[at + 2] && s[3] == b[at + 3]);
}

/// Eight big-endian bytes give back the integer they were made from.
pub proof fn lemma_be64_round_trip(v: u64, b: Seq<u8>, at: int)
    requires
        0 <= at,
        at + 8 <= b.len(),
        b.subrange(at, at + 8) == be64(v),
    ensures
        from_be64(b, at) == v,
{
    let hi = (v / 0x1_0000_0000) as u32;
    let lo = (v % 0x1_0000_0000) as u32;
    let s = b.subrange(at, at + 8);
    assert(b.subrange(at, at + 4) == s.subrange(0, 4));
    assert(b.subrange(at + 4, at + 8) == s.subrange(4, 8));
    assert(s.subrange(0, 4) == be32(hi));
    assert(s.subrange(4, 8) == be32(lo));
    lemma_be32_round_trip(hi, b, at);
    lemma_be32_round_trip(lo, b, at + 4);
}

/// A positive fixint is read back as written, whatever follows it.
pub proof fn lemma_pfix_round_trip(v: u8, rest: Seq<u8>)
    requires
        v < 0x80,
    ensures
        decode_pfix(encode_pfix(v) + rest) == Ok::<(u8, int), ErrorView>((v, 1)),
{
}

/// A boolean is read back as written, whatever follows it.
pub proof fn lemma_bool_round_trip(v: bool, rest: Seq<u8>)
    ensures
        decode_bool(encode_bool(v) + rest) == Ok::<(bool, int), ErrorView>((v, 1)),
{
}

/// An unsigned byte is read back as written, whatever follows it.
pub proof fn lemma_u8_round_trip(v: u8, rest: Seq<u8>)
    ensures
        decode_u8(encode_u8(v) + rest) == Ok::<(u8, int), ErrorView>((v, 2)),
{
}

/// A 16-bit integer is read back as written, whatever follows it.
pub proof fn lemma_u16_round_trip(v: u16, rest: Seq<u8>)
    ensures
        decode_u16(encode_u16(v) + rest) == Ok::<(u16, int), ErrorView>((v, 3)),
{
    let b = encode_u16(v) + rest;
    assert(b.subrange(1, 3) == be16(v));
    lemma_be16_round_trip(v, b, 1);
}

/// A 32-bit integer is read back as written, whatever follows it.
pub proof fn lemma_u32_round_trip(v: u32, rest: Seq<u8>)
    ensures
        decode_u32(encode_u32(v) + rest) == Ok::<(u32, int), ErrorView>((v, 5)),
{
    let b = encode_u32(v) + rest;
    assert(b.subrange(1, 5) == be32(v));
    lemma_be32_round_trip(v, b, 1);
}

/// A 64-bit integer is read back as written, whatever follows it.
pub proof fn lemma_u64_round_trip(v: u64, rest: Seq<u8>)
    ensures
        decode_u64(encode_u64(v) + rest) == Ok::<(u64, int), ErrorView>((v, 9)),
{
    let b = encode_u64(v) + rest;
    assert(b.subrange(1, 9) == be64(v));
    lemma_be64_round_trip(v, b, 1);
}

/// A string length is read back as written, and the reading takes exactly
/// the prefix.
pub proof fn lemma_str_len_round_trip(len: u32, rest: Seq<u8>)
    ensures
        decode_str_len(encode_str_len(len) + rest) == Ok::<(u32, int), ErrorView>(
            (len, encode_str_len(len).len() as int),
        ),
{
    let b = encode_str_len(len) + rest;
    if len < 32 {
    } else if len < 0x100 {
    } else if len < 0x1_0000 {
        assert(b.subrange(1, 3) == be16(len as u16));
        lemma_be16_round_trip(len as u16, b, 1);
    } else {
        assert(b.subrange(1, 5) == be32(len));
        lemma_be32_round_trip(len, b, 1);
    }
}

/// An array length is read back as written, and the reading takes exactly
/// the prefix.
pub proof fn lemma_array_len_round_trip(len: u32, rest: Seq<u8>)
    ensures
        decode_array_len(encode_array_len(len) + rest) == Ok::<(u32, int), ErrorView>(
            (len, encode_array_len(len).len() as int),
        ),
{
    let b = encode_array_len(len) + rest;
    if len < 16 {
    } else if len < 0x1_0000 {
        assert(b.subrange(1, 3) == be16(len as u16));
        lemma_be16_round_trip(len as u16, b, 1);
    } else {
        assert(b.subrange(1, 5) == be32(len));
        lemma_be32_round_trip(len, b, 1);
    }
}

/// A blob length is read back as written, and the reading takes exactly the
/// prefix.
pub proof fn lemma_bin_len_round_trip(len: u32, rest: Seq<u8>)
    ensures
        decode_bin_len(encode_bin_len(len) + rest) == Ok::<(u32, int), ErrorView>(
            (len, encode_bin_len(len).len() as int),
        ),
{
    let b = encode_bin_len(len) + rest;
    if len < 0x100 {
    } else if len < 0x1_0000 {
        assert(b.subrange(1, 3) == be16(len as u16));
        lemma_be16_round_trip(len as u16, b, 1);
    } else {
        assert(b.subrange(1, 5) == be32(len));
        lemma_be32_round_trip(len, b, 1);
    }
}

// ---------------------------------------------------------------------------
// Trusted: the calls into rmp and std
// ---------------------------------------------------------------------------

/// How the result of a reading call relates to the model: on success the
/// value is the model's and `rest`, the number of bytes left unread, shows
/// that exactly the model's count was taken; on failure the error is the
/// model's.
pub open spec fn read_agrees<T>(
    got: Result<(T, usize), FusionError>,
    model: Decoded<T>,
    len: nat,
) -> bool {
    match got {
        Ok((v, rest)) => rest <= len && model == Ok::<(T, int), ErrorView>((v, len - rest)),
        Err(e) => model == Err::<(T, int), ErrorView>(e@),
    }
}

/// Calls `rmp::encode::write_pfix` on an empty vector. That function writes
/// the value as one byte and panics from 128 on, which `requires` leaves
/// out.
#[verifier::external_body]
pub(crate) fn rmp_write_pfix(val: u8) -> (out: Vec<u8>)
    requires
        val < 0x80,
    ensures
        out@ == encode_pfix(val),
{
    let mut out = Vec::new();
    let _ = rmp::encode::write_pfix(&mut out, val);
    out
}

/// Calls `rmp::decode::read_pfix` on a byte slice. That function reads one
/// marker byte and accepts it if it is a positive fixint; an empty input is a
/// marker read error, any other marker a type mismatch that carries the byte.
#[verifier::external_body]
pub(crate) fn rmp_read_pfix(bytes: &[u8]) -> (r: Result<(u8, usize), FusionError>)
    ensures
        read_agrees(r, decode_pfix(bytes@), bytes@.len()),
{
    let mut rd = bytes;
    match rmp::decode::read_pfix(&mut rd) {
        Ok(v) => Ok((v, rd.len())),
        Err(rmp::decode::ValueReadError::InvalidMarkerRead(_)) => Err(FusionError::InvalidMarkerRead),
        Err(rmp::decode::ValueReadError::InvalidDataRead(_)) => Err(FusionError::InvalidDataRead),
        Err(rmp::decode::ValueReadError::TypeMismatch(m)) => Err(FusionError::TypeMismatch(m.to_u8())),
    }
}

/// Calls `rmp::encode::write_bool` on an empty vector. That function writes
/// one marker byte: that of true or that of false.
#[verifier::external_body]
pub(crate) fn rmp_write_bool(val: bool) -> (out: Vec<u8>)
    ensures
        out@ == encode_bool(val),
{
    let mut out = Vec::new();
    let _ = rmp::encode::write_bool(&mut out, val);
    out
}

/// Calls `rmp::decode::read_bool` on a byte slice. That function reads one
/// marker byte and accepts the markers of true and false; an empty input is
/// a marker read error, any other marker a type mismatch that carries the
/// byte.
#[verifier::external_body]
pub(crate) fn rmp_read_bool(bytes: &[u8]) -> (r: Result<(bool, usize), FusionError>)
    ensures
        read_agrees(r, decode_bool(bytes@), bytes@.len()),
{
    let mut rd = bytes;
    match rmp::decode::read_bool(&mut rd) {
        Ok(v) => Ok((v, rd.len())),
        Err(rmp::decode::ValueReadError::InvalidMarkerRead(_)) => Err(FusionError::InvalidMarkerRead),
        Err(rmp::decode::ValueReadError::InvalidDataRead(_)) => Err(FusionError::InvalidDataRead),
        Err(rmp::decode::ValueReadError::TypeMismatch(m)) => Err(FusionError::TypeMismatch(m.to_u8())),
    }
}

/// Calls `rmp::encode::write_u8` on an empty vector. That function writes
/// the marker of an unsigned byte and the byte, whatever its value.
#[verifier::external_body]
pub(crate) fn rmp_write_u8(val: u8) -> (out: Vec<u8>)
    ensures
        out@ == encode_u8(val),
{
    let mut out = Vec::new();
    let _ = rmp::encode::write_u8(&mut out, val);
    out
}

/// Calls `rmp::decode::read_u8` on a byte slice. That function reads a marker
/// and, if it is that of an unsigned byte, one byte of data. An input that
/// ends before the marker is a marker read error, one that ends before the
/// data a data read error, any other marker a type mismatch that carries the
/// byte.
#[verifier::external_body]
pub(crate) fn rmp_read_u8(bytes: &[u8]) -> (r: Result<(u8, usize), FusionError>)
    ensures
        read_agrees(r, decode_u8(bytes@), bytes@.len()),
{
    let mut rd = bytes;
    match rmp::decode::read_u8(&mut rd) {
        Ok(v) => Ok((v, rd.len())),
        Err(rmp::decode::ValueReadError::InvalidMarkerRead(_)) => Err(FusionError::InvalidMarkerRead),
        Err(rmp::decode::ValueReadError::InvalidDataRead(_)) => Err(FusionError::InvalidDataRead),
        Err(rmp::decode::ValueReadError::TypeMismatch(m)) => Err(FusionError::TypeMismatch(m.to_u8())),
    }
}

/// Calls `rmp::encode::write_u16` on an empty vector. That function writes
/// the marker of a 16-bit unsigned integer and the value's bytes, most
/// significant first: three bytes whatever the value.
#[verifier::external_body]
pub(crate) fn rmp_write_u16(val: u16) -> (out: Vec<u8>)
    ensures
        out@ == encode_u16(val),
{
    let mut out = Vec::new();
    let _ = rmp::encode::write_u16(&mut out, val);
    out
}

/// Calls `rmp::decode::read_u16` on a byte slice. That function reads a
/// marker and, if it is that of a 16-bit unsigned integer, the value's
/// big-endian bytes. An input that ends before the marker is a marker read
/// error, one that ends inside the data a data read error, any other marker
/// a type mismatch that carries the byte.
#[verifier::external_body]
pub(crate) fn rmp_read_u16(bytes: &[u8]) -> (r: Result<(u16, usize), FusionError>)
    ensures
        read_agrees(r, decode_u16(bytes@), bytes@.len()),
{
    let mut rd = bytes;
    match rmp::decode::read_u16(&mut rd) {
        Ok(v) => Ok((v, rd.len())),
        Err(rmp::decode::ValueReadError::InvalidMarkerRead(_)) => Err(FusionError::InvalidMarkerRead),
        Err(rmp::decode::ValueReadError::InvalidDataRead(_)) => Err(FusionError::InvalidDataRead),
        Err(rmp::decode::ValueReadError::TypeMismatch(m)) => Err(FusionError::TypeMismatch(m.to_u8())),
    }
}

/// Calls `rmp::encode::write_u32` on an empty vector. That function writes
/// the marker of a 32-bit unsigned integer and the value's bytes, most
/// significant first: five bytes whatever the value.
#[verifier::external_body]
pub(crate) fn rmp_write_u32(val: u32) -> (out: Vec<u8>)
    ensures
        out@ == encode_u32(val),
{
    let mut out = Vec::new();
    let _ = rmp::encode::write_u32(&mut out, val);
    out
}

/// Calls `rmp::decode::read_u32` on a byte slice. That function reads a
/// marker and, if it is that of a 32-bit unsigned integer, the value's
/// big-endian bytes. An input that ends before the marker is a marker read
/// error, one that ends inside the data a data read error, any other marker
/// a type mismatch that carries the byte.
#[verifier::external_body]
pub(crate) fn rmp_read_u32(bytes: &[u8]) -> (r: Result<(u32, usize), FusionError>)
    ensures
        read_agrees(r, decode_u32(bytes@), bytes@.len()),
{
    let mut rd = bytes;
    match rmp::decode::read_u32(&mut rd) {
        Ok(v) => Ok((v, rd.len())),
        Err(rmp::decode::ValueReadError::InvalidMarkerRead(_)) => Err(FusionError::InvalidMarkerRead),
        Err(rmp::decode::ValueReadError::InvalidDataRead(_)) => Err(FusionError::InvalidDataRead),
        Err(rmp::decode::ValueReadError::TypeMismatch(m)) => Err(FusionError::TypeMismatch(m.to_u8())),
    }
}

/// Calls `rmp::encode::write_u64` on an empty vector. That function writes
/// the marker of a 64-bit unsigned integer and the value's bytes, most
/// significant first: nine bytes whatever the value.
#[verifier::external_body]
pub(crate) fn rmp_write_u64(val: u64) -> (out: Vec<u8>)
    ensures
        out@ == encode_u64(val),
{
    let mut out = Vec::new();
    let _ = rmp::encode::write_u64(&mut out, val);
    out
}

/// Calls `rmp::decode::read_u64` on a byte slice. That function reads a
/// marker and, if it is that of a 64-bit unsigned integer, the value's
/// big-endian bytes. An input that ends before the marker is a marker read
/// error, one that ends inside the data a data read error, any other marker
/// a type mismatch that carries the byte.
#[verifier::external_body]
pub(crate) fn rmp_read_u64(bytes: &[u8]) -> (r: Result<(u64, usize), FusionError>)
    ensures
        read_agrees(r, decode_u64(bytes@), bytes@.len()),
{
    let mut rd = bytes;
    match rmp::decode::read_u64(&mut rd) {
        Ok(v) => Ok((v, rd.len())),
        Err(rmp::decode::ValueReadError::InvalidMarkerRead(_)) => Err(FusionError::InvalidMarkerRead),
        Err(rmp::decode::ValueReadError::InvalidDataRead(_)) => Err(FusionError::InvalidDataRead),
        Err(rmp::decode::ValueReadError::TypeMismatch(m)) => Err(FusionError::TypeMismatch(m.to_u8())),
    }
}

/// Calls `rmp::encode::write_str` on an empty vector. That function writes
/// the length prefix for the text's byte length, in the shortest of the four
/// string forms, and then the text's bytes. It casts the length to 32 bits,
/// so `requires` leaves longer texts out.
#[verifier::external_body]
pub(crate) fn rmp_write_str(text: &str) -> (out: Vec<u8>)
    requires
        text.spec_bytes().len() <= u32::MAX,
    ensures
        out@ == encode_str(text.spec_bytes()),
{
    let mut out = Vec::new();
    let _ = rmp::encode::write_str(&mut out, text);
    out
}

/// Calls `rmp::decode::read_str_len` on a byte slice. That function reads a
/// marker and accepts the four string forms: the short form holds the length
/// in the marker, the others in the one, two or four bytes that follow. An
/// input that ends before the marker is a marker read error, one that ends
/// inside the length a data read error, any other marker a type mismatch
/// that carries the byte.
#[verifier::external_body]
pub(crate) fn rmp_read_str_len(bytes: &[u8]) -> (r: Result<(u32, usize), FusionError>)
    ensures
        read_agrees(r, decode_str_len(bytes@), bytes@.len()),
{
    let mut rd = bytes;
    match rmp::decode::read_str_len(&mut rd) {
        Ok(v) => Ok((v, rd.len())),
        Err(rmp::decode::ValueReadError::InvalidMarkerRead(_)) => Err(FusionError::InvalidMarkerRead),
        Err(rmp::decode::ValueReadError::InvalidDataRead(_)) => Err(FusionError::InvalidDataRead),
        Err(rmp::decode::ValueReadError::TypeMismatch(m)) => Err(FusionError::TypeMismatch(m.to_u8())),
    }
}

/// Calls `rmp::encode::write_array_len` on an empty vector. That function
/// writes the count in the shortest of the three array forms: in the marker
/// below 16, else in two bytes, else in four.
#[verifier::external_body]
pub(crate) fn rmp_write_array_len(val: u32) -> (out: Vec<u8>)
    ensures
        out@ == encode_array_len(val),
{
    let mut out = Vec::new();
    let _ = rmp::encode::write_array_len(&mut out, val);
    out
}

/// Calls `rmp::decode::read_array_len` on a byte slice. That function reads
/// a marker and accepts the three array forms. An input that ends before the
/// marker is a marker read error, one that ends inside the count a data read
/// error, any other marker a type mismatch that carries the byte.
#[verifier::external_body]
pub(crate) fn rmp_read_array_len(bytes: &[u8]) -> (r: Result<(u32, usize), FusionError>)
    ensures
        read_agrees(r, decode_array_len(bytes@), bytes@.len()),
{
    let mut rd = bytes;
    match rmp::decode::read_array_len(&mut rd) {
        Ok(v) => Ok((v, rd.len())),
        Err(rmp::decode::ValueReadError::InvalidMarkerRead(_)) => Err(FusionError::InvalidMarkerRead),
        Err(rmp::decode::ValueReadError::InvalidDataRead(_)) => Err(FusionError::InvalidDataRead),
        Err(rmp::decode::ValueReadError::TypeMismatch(m)) => Err(FusionError::TypeMismatch(m.to_u8())),
    }
}

/// Calls `rmp::encode::write_bin_len` on an empty vector. That function
/// writes the length in the shortest of the three blob forms: in one byte
/// below 256, else in two bytes, else in four.
#[verifier::external_body]
pub(crate) fn rmp_write_bin_len(val: u32) -> (out: Vec<u8>)
    ensures
        out@ == encode_bin_len(val),
{
    let mut out = Vec::new();
    let _ = rmp::encode::write_bin_len(&mut out, val);
    out
}

/// Calls `rmp::decode::read_bin_len` on a byte slice. That function reads a
/// marker and accepts the three blob forms. An input that ends before the
/// marker is a marker read error, one that ends inside the length a data
/// read error, any other marker a type mismatch that carries the byte.
#[verifier::external_body]
pub(crate) fn rmp_read_bin_len(bytes: &[u8]) -> (r: Result<(u32, usize), FusionError>)
    ensures
        read_agrees(r, decode_bin_len(bytes@), bytes@.len()),
{
    let mut rd = bytes;
    match rmp::decode::read_bin_len(&mut rd) {
        Ok(v) => Ok((v, rd.len())),
        Err(rmp::decode::ValueReadError::InvalidMarkerRead(_)) => Err(FusionError::InvalidMarkerRead),
        Err(rmp::decode::ValueReadError::InvalidDataRead(_)) => Err(FusionError::InvalidDataRead),
        Err(rmp::decode::ValueReadError::TypeMismatch(m)) => Err(FusionError::TypeMismatch(m.to_u8())),
    }
}

/// Calls `std::str::from_utf8`, which checks that the bytes are UTF-8 and, if
/// they are, hands them back as a string slice over the same bytes.
#[verifier::external_body]
pub(crate) fn str_from_utf8<'a>(bytes: &'a [u8]) -> (r: Option<&'a str>)
    ensures
        r.is_some() == valid_utf8(bytes@),
        r matches Some(text) ==> text.spec_bytes() == bytes@,
{
    std::str::from_utf8(bytes).ok()
}

} // verus!
