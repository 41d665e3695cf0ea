//! Scalar values and the types of columns, and their place in a payload.
//!
//! A scalar is written as its type, a flag that tells a value from a null,
//! and the value. Integers are written as the unsigned integer of the same
//! width that has the same bits, floating-point numbers as their bit
//! pattern.

use crate::error::{ErrorView, FusionError};
use crate::ipc::SlotStream;
use crate::msgpack::{
    decode_bool, decode_u16, decode_u32, decode_u64, encode_bool, encode_pfix,
    encode_u16, encode_u32, encode_u64, lemma_bool_round_trip,
    lemma_pfix_round_trip, lemma_u16_round_trip, lemma_u32_round_trip, lemma_u64_round_trip,
    Decoded,
};
use crate::wire::{
    decode_string, decode_tag_byte, read_tag, lemma_text_round_trip, read_string, tag_or_error, tag_result, after, fit, lemma_writes_then, read_bool, read_u16, read_u32, read_u64, reads,
    str_written, then, viewed, write_bool, write_pfix, write_str, write_u16, write_u32,
    write_u64, writes, Decode, Encode, Encoded, Wire,
};
use vstd::prelude::*;
use vstd::utf8::encode_utf8;

verus! {

// ---------------------------------------------------------------------------
// Types
// ---------------------------------------------------------------------------

/// The types that a column or a scalar can have.
#[derive(Clone, Copy, Debug, PartialEq, Eq, Structural)]
pub enum EncodedType {
    Boolean,
    Utf8,
    Int16,
    Int32,
    Int64,
    Float32,
    Float64,
}

/// Catalog identifier of the type `bool`.
pub const BOOL_OID: u32 = 16;

/// Catalog identifier of the type `int8`.
pub const INT8_OID: u32 = 20;

/// Catalog identifier of the type `int2`.
pub const INT2_OID: u32 = 21;

/// Catalog identifier of the type `int4`.
pub const INT4_OID: u32 = 23;

/// Catalog identifier of the type `text`.
pub const TEXT_OID: u32 = 25;

/// Catalog identifier of the type `float4`.
pub const FLOAT4_OID: u32 = 700;

/// Catalog identifier of the type `float8`.
pub const FLOAT8_OID: u32 = 701;

/// Catalog identifier of the type `varchar`.
pub const VARCHAR_OID: u32 = 1043;

/// The form in which the values of a type are written.
pub enum Shape {
    Flag,
    Word16,
    Word32,
    Word64,
    Text,
}

impl EncodedType {
    /// The byte that stands for the type on the wire.
    pub open spec fn tag(self) -> u8 {
        match self {
            EncodedType::Boolean => 0,
            EncodedType::Utf8 => 1,
            EncodedType::Int16 => 2,
            EncodedType::Int32 => 3,
            EncodedType::Int64 => 4,
            EncodedType::Float32 => 5,
            EncodedType::Float64 => 6,
        }
    }

    /// The type that a byte stands for, if any.
    pub open spec fn from_tag(tag: u8) -> Option<EncodedType> {
        if tag == 0 {
            Some(EncodedType::Boolean)
        } else if tag == 1 {
            Some(EncodedType::Utf8)
        } else if tag == 2 {
            Some(EncodedType::Int16)
        } else if tag == 3 {
            Some(EncodedType::Int32)
        } else if tag == 4 {
            Some(EncodedType::Int64)
        } else if tag == 5 {
            Some(EncodedType::Float32)
        } else if tag == 6 {
            Some(EncodedType::Float64)
        } else {
            None
        }
    }

    /// The type that stands for a catalog type, if any.
    pub open spec fn from_type_oid(oid: u32) -> Option<EncodedType> {
        if oid == BOOL_OID {
            Some(EncodedType::Boolean)
        } else if oid == TEXT_OID || oid == VARCHAR_OID {
            Some(EncodedType::Utf8)
        } else if oid == INT2_OID {
            Some(EncodedType::Int16)
        } else if oid == INT4_OID {
            Some(EncodedType::Int32)
        } else if oid == INT8_OID {
            Some(EncodedType::Int64)
        } else if oid == FLOAT4_OID {
            Some(EncodedType::Float32)
        } else if oid == FLOAT8_OID {
            Some(EncodedType::Float64)
        } else {
            None
        }
    }

    /// The form in which values of the type are written.
    pub open spec fn shape(self) -> Shape {
        match self {
            EncodedType::Boolean => Shape::Flag,
            EncodedType::Utf8 => Shape::Text,
            EncodedType::Int16 => Shape::Word16,
            EncodedType::Int32 => Shape::Word32,
            EncodedType::Int64 => Shape::Word64,
            EncodedType::Float32 => Shape::Word32,
            EncodedType::Float64 => Shape::Word64,
        }
    }

    /// The byte that stands for the value on the wire.
    pub fn to_u8(self) -> (tag: u8)
        ensures
            tag == self.tag(),
    {
        match self {
            EncodedType::Boolean => 0,
            EncodedType::Utf8 => 1,
            EncodedType::Int16 => 2,
            EncodedType::Int32 => 3,
            EncodedType::Int64 => 4,
            EncodedType::Float32 => 5,
            EncodedType::Float64 => 6,
        }
    }

    /// The type that `tag` stands for on the wire. Any byte above 6 gives
    /// `Deserialize` with the name `encoded type` and the byte.
    pub fn from_u8(tag: u8) -> (r: Result<EncodedType, FusionError>)
        ensures
            tag_result(r, tag_or_error(EncodedType::from_tag(tag), "encoded type"@, tag)),
    {
        match tag {
            0 => Ok(EncodedType::Boolean),
            1 => Ok(EncodedType::Utf8),
            2 => Ok(EncodedType::Int16),
            3 => Ok(EncodedType::Int32),
            4 => Ok(EncodedType::Int64),
            5 => Ok(EncodedType::Float32),
            6 => Ok(EncodedType::Float64),
            _ => Err(FusionError::Deserialize("encoded type".to_owned(), tag as u64)),
        }
    }

    /// The type that stands for the catalog type `type_oid`. A catalog type
    /// without one gives `UnsupportedType` with the identifier.
    pub fn try_from(type_oid: u32) -> (r: Result<EncodedType, FusionError>)
        ensures
            match r {
                Ok(t) => EncodedType::from_type_oid(type_oid) == Some(t),
                Err(e) => EncodedType::from_type_oid(type_oid) is None && e@
                    == ErrorView::UnsupportedType(type_oid),
            },
    {
        if type_oid == BOOL_OID {
            Ok(EncodedType::Boolean)
        } else if type_oid == TEXT_OID || type_oid == VARCHAR_OID {
            Ok(EncodedType::Utf8)
        } else if type_oid == INT2_OID {
            Ok(EncodedType::Int16)
        } else if type_oid == INT4_OID {
            Ok(EncodedType::Int32)
        } else if type_oid == INT8_OID {
            Ok(EncodedType::Int64)
        } else if type_oid == FLOAT4_OID {
            Ok(EncodedType::Float32)
        } else if type_oid == FLOAT8_OID {
            Ok(EncodedType::Float64)
        } else {
            Err(FusionError::UnsupportedType(type_oid))
        }
    }
}

/// A type's tag is read back as the type.
pub proof fn lemma_type_tag_round_trip(t: EncodedType)
    ensures
        t.tag() < 0x80,
        EncodedType::from_tag(t.tag()) == Some(t),
{
}

// ---------------------------------------------------------------------------
// Scalars
// ---------------------------------------------------------------------------

/// A value of one of the types, or the null of that type. A floating-point
/// number is held as its bit pattern.
#[derive(Debug, PartialEq, Eq)]
pub enum ScalarValue {
    Boolean(Option<bool>),
    Utf8(Option<String>),
    Int16(Option<i16>),
    Int32(Option<i32>),
    Int64(Option<i64>),
    Float32(Option<u32>),
    Float64(Option<u64>),
}

/// A value in the form it is written in.
pub enum BodyView {
    Flag(bool),
    Word16(u16),
    Word32(u32),
    Word64(u64),
    Text(Seq<char>),
}

/// A [`ScalarValue`] as the contracts see it: its type and, unless it is a
/// null, its value in the form that the type is written in.
pub struct ScalarView {
    pub kind: EncodedType,
    pub body: Option<BodyView>,
}

impl View for ScalarValue {
    type V = ScalarView;

    open spec fn view(&self) -> ScalarView {
        match self {
            ScalarValue::Boolean(v) => ScalarView {
                kind: EncodedType::Boolean,
                body: match v {
                    Some(b) => Some(BodyView::Flag(*b)),
                    None => None,
                },
            },
            ScalarValue::Utf8(v) => ScalarView {
                kind: EncodedType::Utf8,
                body: match v {
                    Some(text) => Some(BodyView::Text(text@)),
                    None => None,
                },
            },
            ScalarValue::Int16(v) => ScalarView {
                kind: EncodedType::Int16,
                body: match v {
                    Some(n) => Some(BodyView::Word16(*n as u16)),
                    None => None,
                },
            },
            ScalarValue::Int32(v) => ScalarView {
                kind: EncodedType::Int32,
                body: match v {
                    Some(n) => Some(BodyView::Word32(*n as u32)),
                    None => None,
                },
            },
            ScalarValue::Int64(v) => ScalarView {
                kind: EncodedType::Int64,
                body: match v {
                    Some(n) => Some(BodyView::Word64(*n as u64)),
                    None => None,
                },
            },
            ScalarValue::Float32(v) => ScalarView {
                kind: EncodedType::Float32,
                body: match v {
                    Some(bits) => Some(BodyView::Word32(*bits)),
                    None => None,
                },
            },
            ScalarValue::Float64(v) => ScalarView {
                kind: EncodedType::Float64,
                body: match v {
                    Some(bits) => Some(BodyView::Word64(*bits)),
                    None => None,
                },
            },
        }
    }
}

impl BodyView {
    /// The form of the value.
    pub open spec fn shape(self) -> Shape {
        match self {
            BodyView::Flag(_) => Shape::Flag,
            BodyView::Word16(_) => Shape::Word16,
            BodyView::Word32(_) => Shape::Word32,
            BodyView::Word64(_) => Shape::Word64,
            BodyView::Text(_) => Shape::Text,
        }
    }

    /// What writing the value gives where `room` bytes are left.
    pub open spec fn written(self, room: int) -> Encoded {
        match self {
            BodyView::Flag(v) => fit(encode_bool(v), room),
            BodyView::Word16(v) => fit(encode_u16(v), room),
            BodyView::Word32(v) => fit(encode_u32(v), room),
            BodyView::Word64(v) => fit(encode_u64(v), room),
            BodyView::Text(v) => str_written(encode_utf8(v), room),
        }
    }

    /// Reading a value of the form `shape`.
    pub open spec fn decode(shape: Shape, b: Seq<u8>) -> Decoded<BodyView> {
        match shape {
            Shape::Flag => match decode_bool(b) {
                Ok((v, n)) => Ok((BodyView::Flag(v), n)),
                Err(e) => Err(e),
            },
            Shape::Word16 => match decode_u16(b) {
                Ok((v, n)) => Ok((BodyView::Word16(v), n)),
                Err(e) => Err(e),
            },
            Shape::Word32 => match decode_u32(b) {
                Ok((v, n)) => Ok((BodyView::Word32(v), n)),
                Err(e) => Err(e),
            },
            Shape::Word64 => match decode_u64(b) {
                Ok((v, n)) => Ok((BodyView::Word64(v), n)),
                Err(e) => Err(e),
            },
            Shape::Text => match decode_string(b) {
                Ok((v, n)) => Ok((BodyView::Text(v), n)),
                Err(e) => Err(e),
            },
        }
    }

    /// A value is read back as written, whatever follows it.
    pub proof fn lemma_round_trip(self, room: int, rest: Seq<u8>)
        ensures
            self.written(room) matches Ok(b) ==> BodyView::decode(self.shape(), b + rest) == Ok::<
                (BodyView, int),
                ErrorView,
            >((self, b.len() as int)),
    {
        match self {
            BodyView::Flag(v) => lemma_bool_round_trip(v, rest),
            BodyView::Word16(v) => lemma_u16_round_trip(v, rest),
            BodyView::Word32(v) => lemma_u32_round_trip(v, rest),
            BodyView::Word64(v) => lemma_u64_round_trip(v, rest),
            BodyView::Text(v) => {
                if encode_utf8(v).len() <= u32::MAX {
                    lemma_text_round_trip(v, rest);
                }
            },
        }
    }
}

impl Wire for ScalarView {
    type Read = ScalarView;

    /// The value, if there is one, has the form of the type.
    open spec fn valid(self) -> bool {
        self.body matches Some(body) ==> body.shape() == self.kind.shape()
    }

    /// The type, a flag that is true for a value and false for a null, and
    /// the value.
    open spec fn written(self, room: int) -> Encoded {
        let kind = fit(encode_pfix(self.kind.tag()), room);
        let flag = then(kind, fit(encode_bool(self.body is Some), after(kind, room)));
        match self.body {
            None => flag,
            Some(body) => then(flag, body.written(after(flag, room))),
        }
    }

    open spec fn read(self) -> ScalarView {
        self
    }

    /// A byte that stands for no type is refused with `Deserialize`, the
    /// name `encoded type` and the byte.
    open spec fn decode(b: Seq<u8>) -> Decoded<ScalarView> {
        match decode_tag_byte(b, "encoded type"@) {
            Err(e) => Err(e),
            Ok((tag, _)) => match tag_or_error(EncodedType::from_tag(tag), "encoded type"@, tag) {
                Err(e) => Err(e),
                Ok(kind) => match decode_bool(b.skip(1)) {
                    Err(e) => Err(e),
                    Ok((false, _)) => Ok((ScalarView { kind, body: None }, 2)),
                    Ok((true, _)) => match BodyView::decode(kind.shape(), b.skip(2)) {
                        Err(e) => Err(e),
                        Ok((body, n)) => Ok((ScalarView { kind, body: Some(body) }, 2 + n)),
                    },
                },
            },
        }
    }

    proof fn lemma_fits(self, room: int) {
    }

    proof fn lemma_round_trip(self, room: int, rest: Seq<u8>) {
        if self.written(room) is Ok {
            let b = self.written(room)->Ok_0 + rest;
            let kind = encode_pfix(self.kind.tag());
            let flag = encode_bool(self.body is Some);
            lemma_type_tag_round_trip(self.kind);
            lemma_pfix_round_trip(self.kind.tag(), b.skip(1));
            assert(b =~= kind + b.skip(1));
            lemma_bool_round_trip(self.body is Some, b.skip(2));
            assert(b.skip(1) =~= flag + b.skip(2));
            match self.body {
                None => {},
                Some(body) => {
                    body.lemma_round_trip(room - 2, rest);
                    assert(b.skip(2) =~= body.written(room - 2)->Ok_0 + rest);
                },
            }
        }
    }
}

/// A value in the form it is written in, as the writing code holds it.
pub enum Body<'a> {
    Flag(bool),
    Word16(u16),
    Word32(u32),
    Word64(u64),
    Text(&'a str),
}

impl<'a> View for Body<'a> {
    type V = BodyView;

    open spec fn view(&self) -> BodyView {
        match self {
            Body::Flag(v) => BodyView::Flag(*v),
            Body::Word16(v) => BodyView::Word16(*v),
            Body::Word32(v) => BodyView::Word32(*v),
            Body::Word64(v) => BodyView::Word64(*v),
            Body::Text(v) => BodyView::Text(v@),
        }
    }
}

impl ScalarValue {
    /// The type of the scalar.
    pub fn kind(&self) -> (kind: EncodedType)
        ensures
            kind == self@.kind,
    {
        match self {
            ScalarValue::Boolean(_) => EncodedType::Boolean,
            ScalarValue::Utf8(_) => EncodedType::Utf8,
            ScalarValue::Int16(_) => EncodedType::Int16,
            ScalarValue::Int32(_) => EncodedType::Int32,
            ScalarValue::Int64(_) => EncodedType::Int64,
            ScalarValue::Float32(_) => EncodedType::Float32,
            ScalarValue::Float64(_) => EncodedType::Float64,
        }
    }

    /// The value in the form it is written in, or nothing for a null.
    pub fn body(&self) -> (body: Option<Body<'_>>)
        ensures
            self@.valid(),
            match body {
                Some(b) => self@.body == Some(b@),
                None => self@.body is None,
            },
    {
        match self {
            ScalarValue::Boolean(Some(v)) => Some(Body::Flag(*v)),
            ScalarValue::Utf8(Some(v)) => Some(Body::Text(v.as_str())),
            ScalarValue::Int16(Some(v)) => Some(Body::Word16(*v as u16)),
            ScalarValue::Int32(Some(v)) => Some(Body::Word32(*v as u32)),
            ScalarValue::Int64(Some(v)) => Some(Body::Word64(*v as u64)),
            ScalarValue::Float32(Some(v)) => Some(Body::Word32(*v)),
            ScalarValue::Float64(Some(v)) => Some(Body::Word64(*v)),
            _ => None,
        }
    }

    /// The null of a type.
    pub fn null(kind: EncodedType) -> (value: ScalarValue)
        ensures
            value@ == (ScalarView { kind, body: None }),
    {
        match kind {
            EncodedType::Boolean => ScalarValue::Boolean(None),
            EncodedType::Utf8 => ScalarValue::Utf8(None),
            EncodedType::Int16 => ScalarValue::Int16(None),
            EncodedType::Int32 => ScalarValue::Int32(None),
            EncodedType::Int64 => ScalarValue::Int64(None),
            EncodedType::Float32 => ScalarValue::Float32(None),
            EncodedType::Float64 => ScalarValue::Float64(None),
        }
    }
}

/// Every scalar that a caller can hold is valid.
pub proof fn lemma_scalar_valid(value: ScalarValue)
    ensures
        value@.valid(),
{
}

/// Writes a value in its form.
fn write_body(stream: &mut SlotStream, body: &Body<'_>) -> (r: Result<(), FusionError>)
    ensures
        writes(old(stream)@, final(stream)@, r, body@.written(old(stream)@.room())),
{
    match body {
        Body::Flag(v) => write_bool(stream, *v),
        Body::Word16(v) => write_u16(stream, *v),
        Body::Word32(v) => write_u32(stream, *v),
        Body::Word64(v) => write_u64(stream, *v),
        Body::Text(v) => write_str(stream, *v),
    }
}

/// The scalar of type `kind` that has the value `body`.
pub open spec fn scalar_of(kind: EncodedType, body: Decoded<BodyView>) -> Decoded<ScalarView> {
    match body {
        Ok((body, n)) => Ok((ScalarView { kind, body: Some(body) }, n)),
        Err(e) => Err(e),
    }
}

/// Reads a value of the type `kind`.
fn read_body(stream: &mut SlotStream, kind: EncodedType) -> (r: Result<ScalarValue, FusionError>)
    ensures
        reads(
            old(stream)@,
            final(stream)@,
            viewed(r),
            scalar_of(kind, BodyView::decode(kind.shape(), old(stream)@.ahead())),
        ),
{
    match kind {
        EncodedType::Boolean => {
            let v = read_bool(stream)?;
            Ok(ScalarValue::Boolean(Some(v)))
        },
        EncodedType::Utf8 => {
            let v = read_string(stream)?;
            Ok(ScalarValue::Utf8(Some(v)))
        },
        EncodedType::Int16 => {
            let v = read_u16(stream)?;
            assert((v as i16) as u16 == v) by (bit_vector);
            Ok(ScalarValue::Int16(Some(v as i16)))
        },
        EncodedType::Int32 => {
            let v = read_u32(stream)?;
            assert((v as i32) as u32 == v) by (bit_vector);
            Ok(ScalarValue::Int32(Some(v as i32)))
        },
        EncodedType::Int64 => {
            let v = read_u64(stream)?;
            assert((v as i64) as u64 == v) by (bit_vector);
            Ok(ScalarValue::Int64(Some(v as i64)))
        },
        EncodedType::Float32 => {
            let v = read_u32(stream)?;
            Ok(ScalarValue::Float32(Some(v)))
        },
        EncodedType::Float64 => {
            let v = read_u64(stream)?;
            Ok(ScalarValue::Float64(Some(v)))
        },
    }
}

/// Writes a scalar: its type, a flag that tells a value from a null, and
/// the value.
pub fn write_scalar_value(stream: &mut SlotStream, value: &ScalarValue) -> (r: Result<
    (),
    FusionError,
>)
    ensures
        writes(old(stream)@, final(stream)@, r, value@.written(old(stream)@.room())),
{
    let ghost v0 = stream@;
    let room = stream.remaining();
    let kind = value.kind();
    let body = value.body();
    proof {
        lemma_type_tag_round_trip(kind);
    }
    write_pfix(stream, kind.to_u8())?;
    let ghost head = encode_pfix(kind.tag());
    let r = write_bool(stream, body.is_some());
    proof {
        lemma_writes_then(v0, head, stream@, r, fit(encode_bool(body is Some), room - 1));
    }
    r?;
    match body {
        None => Ok(()),
        Some(body) => {
            let ghost head = head + encode_bool(true);
            let r = write_body(stream, &body);
            proof {
                lemma_writes_then(v0, head, stream@, r, body@.written(room - 2));
            }
            r
        },
    }
}

/// Reads a scalar.
pub fn read_scalar_value(stream: &mut SlotStream) -> (r: Result<ScalarValue, FusionError>)
    ensures
        reads(old(stream)@, final(stream)@, viewed(r), ScalarView::decode(old(stream)@.ahead())),
{
    let ghost b = stream@.ahead();
    let _ = stream.position();
    let kind = EncodedType::from_u8(read_tag(stream, "encoded type")?)?;
    assert(stream@.ahead() == b.skip(1));
    let some = read_bool(stream)?;
    assert(stream@.ahead() == b.skip(2));
    if some {
        read_body(stream, kind)
    } else {
        Ok(ScalarValue::null(kind))
    }
}

impl Encode for ScalarValue {
    type Form = ScalarView;

    open spec fn form(&self) -> ScalarView {
        self@
    }

    fn encode(&self, stream: &mut SlotStream) -> (r: Result<(), FusionError>) {
        write_scalar_value(stream, self)
    }
}

impl Decode for ScalarValue {
    type Form = ScalarView;

    open spec fn got(&self) -> ScalarView {
        self@
    }

    fn decode(stream: &mut SlotStream) -> (r: Result<ScalarValue, FusionError>) {
        read_scalar_value(stream)
    }
}

} // verus!
