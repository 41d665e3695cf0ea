//! The messages: their header, the payload of each packet kind, and the
//! process to wake when one has been written.

use crate::catalog::{Relation, RelationView, Table, TableView};
use crate::data_type::{lemma_scalar_valid, ScalarValue, ScalarView};
use crate::error::{ErrorView, FusionError};
use crate::ipc::{lemma_put_shape, lemma_put_twice, SlotStream, SlotView};
use crate::msgpack::{
    decode_u16, encode_array_len, encode_pfix, encode_str, encode_u16,
    lemma_array_len_round_trip, lemma_pfix_round_trip, lemma_u16_round_trip, rmp_write_str,
    Decoded,
};
use crate::table_ref::{TableRefView, TableReference};
use crate::wire::{
    after, all_valid, array_written, decode_array, decode_text, decode_text_owned, fit, forms,
    got_all, items_read, items_written, decode_tag_byte, read_tag, write_raw, lemma_array_round_trip, lemma_text_round_trip,
    lemma_writes_then, read_array, read_text, read_u16, reads, str_written,
    tag_or_error, tag_result, text_seen, viewed, write_array, write_pfix, write_u16, writes, Encoded, Wire,
};
use vstd::prelude::*;
use vstd::string::StringSliceAdditionalSpecFns;
use vstd::utf8::encode_utf8;

verus! {

/// The process a message is for.
#[derive(Clone, Copy, Debug, PartialEq, Eq, Structural)]
pub enum Direction {
    ToWorker,
    ToBackend,
}

/// The kind of a message, which fixes the layout of its payload.
#[derive(Clone, Copy, Debug, PartialEq, Eq, Structural)]
pub enum Packet {
    Ack,
    Bind,
    Failure,
    Metadata,
    Parse,
}

/// Whether more parts of the same message follow. Every sender writes
/// `Last`, and no reader looks at it.
#[derive(Clone, Copy, Debug, PartialEq, Eq, Structural)]
pub enum Flag {
    More,
    Last,
}

impl Direction {
    /// The byte that stands for the direction on the wire.
    pub open spec fn tag(self) -> u8 {
        match self {
            Direction::ToWorker => 0,
            Direction::ToBackend => 1,
        }
    }

    /// The direction that a byte stands for, if any.
    pub open spec fn from_tag(tag: u8) -> Option<Direction> {
        if tag == 0 {
            Some(Direction::ToWorker)
        } else if tag == 1 {
            Some(Direction::ToBackend)
        } else {
            None
        }
    }

    /// The byte that stands for the value on the wire.
    pub fn to_u8(self) -> (tag: u8)
        ensures
            tag == self.tag(),
    {
        match self {
            Direction::ToWorker => 0,
            Direction::ToBackend => 1,
        }
    }
}

impl Packet {
    /// The byte that stands for the packet kind on the wire.
    pub open spec fn tag(self) -> u8 {
        match self {
            Packet::Ack => 0,
            Packet::Bind => 1,
            Packet::Failure => 2,
            Packet::Metadata => 3,
            Packet::Parse => 4,
        }
    }

    /// The packet kind that a byte stands for, if any.
    pub open spec fn from_tag(tag: u8) -> Option<Packet> {
        if tag == 0 {
            Some(Packet::Ack)
        } else if tag == 1 {
            Some(Packet::Bind)
        } else if tag == 2 {
            Some(Packet::Failure)
        } else if tag == 3 {
            Some(Packet::Metadata)
        } else if tag == 4 {
            Some(Packet::Parse)
        } else {
            None
        }
    }

    /// The byte that stands for the value on the wire.
    pub fn to_u8(self) -> (tag: u8)
        ensures
            tag == self.tag(),
    {
        match self {
            Packet::Ack => 0,
            Packet::Bind => 1,
            Packet::Failure => 2,
            Packet::Metadata => 3,
            Packet::Parse => 4,
        }
    }
}

impl Flag {
    /// The byte that stands for the flag on the wire.
    pub open spec fn tag(self) -> u8 {
        match self {
            Flag::More => 0,
            Flag::Last => 1,
        }
    }

    /// The flag that a byte stands for, if any.
    pub open spec fn from_tag(tag: u8) -> Option<Flag> {
        if tag == 0 {
            Some(Flag::More)
        } else if tag == 1 {
            Some(Flag::Last)
        } else {
            None
        }
    }

    /// The byte that stands for the value on the wire.
    pub fn to_u8(self) -> (tag: u8)
        ensures
            tag == self.tag(),
    {
        match self {
            Flag::More => 0,
            Flag::Last => 1,
        }
    }
}

impl Direction {
    /// The direction that `value` stands for. Any byte but 0 and 1 gives
    /// `Deserialize` with the name `direction` and the byte.
    pub fn try_from(value: u8) -> (r: Result<Direction, FusionError>)
        ensures
            tag_result(r, tag_or_error(Direction::from_tag(value), "direction"@, value)),
    {
        match value {
            0 => Ok(Direction::ToWorker),
            1 => Ok(Direction::ToBackend),
            _ => Err(FusionError::Deserialize("direction".to_owned(), value as u64)),
        }
    }
}

impl Packet {
    /// The packet kind that `value` stands for. Any byte above 4 gives
    /// `Deserialize` with the name `packet` and the byte.
    pub fn try_from(value: u8) -> (r: Result<Packet, FusionError>)
        ensures
            tag_result(r, tag_or_error(Packet::from_tag(value), "packet"@, value)),
    {
        match value {
            0 => Ok(Packet::Ack),
            1 => Ok(Packet::Bind),
            2 => Ok(Packet::Failure),
            3 => Ok(Packet::Metadata),
            4 => Ok(Packet::Parse),
            _ => Err(FusionError::Deserialize("packet".to_owned(), value as u64)),
        }
    }
}

impl Flag {
    /// The flag that `value` stands for. Any byte but 0 and 1 gives
    /// `Deserialize` with the name `flag` and the byte.
    pub fn try_from(value: u8) -> (r: Result<Flag, FusionError>)
        ensures
            tag_result(r, tag_or_error(Flag::from_tag(value), "flag"@, value)),
    {
        match value {
            0 => Ok(Flag::More),
            1 => Ok(Flag::Last),
            _ => Err(FusionError::Deserialize("flag".to_owned(), value as u64)),
        }
    }
}

impl Default for Direction {
    fn default() -> (d: Direction)
        ensures
            d == Direction::ToWorker,
    {
        Direction::ToWorker
    }
}

impl Default for Packet {
    fn default() -> (p: Packet)
        ensures
            p == Packet::Ack,
    {
        Packet::Ack
    }
}

impl Default for Flag {
    fn default() -> (f: Flag)
        ensures
            f == Flag::Last,
    {
        Flag::Last
    }
}

/// The fixed prefix of every message.
#[derive(Clone, Copy, Debug, PartialEq, Eq, Structural)]
pub struct Header {
    pub direction: Direction,
    pub packet: Packet,
    pub flag: Flag,
    /// The number of payload bytes that follow the header.
    pub length: u16,
}

impl Default for Header {
    /// The placeholder that reserves a header's room before the payload's
    /// length is known.
    fn default() -> (h: Header)
        ensures
            h == Header::placeholder(),
    {
        Header { direction: Direction::ToWorker, packet: Packet::Ack, flag: Flag::Last, length: 0 }
    }
}

/// The size of an encoded header: three tag bytes and a length in three.
pub const HEADER_SIZE: usize = 6;

impl Header {
    /// The header that `default` gives.
    pub open spec fn placeholder() -> Header {
        Header { direction: Direction::ToWorker, packet: Packet::Ack, flag: Flag::Last, length: 0 }
    }

    /// The largest payload that a slot of `capacity` bytes carries behind a
    /// header.
    pub open spec fn max_payload(capacity: int) -> int {
        if capacity >= HEADER_SIZE {
            capacity - HEADER_SIZE
        } else {
            0
        }
    }

    /// The number of bytes that a header takes in a slot.
    pub fn estimate_size() -> (n: usize)
        ensures
            n == HEADER_SIZE,
    {
        HEADER_SIZE
    }

    /// The largest payload that a slot of `capacity` bytes carries behind a
    /// header: what is left of the slot, and nothing for a slot too small
    /// for a header.
    pub fn payload_max_size(capacity: usize) -> (n: usize)
        ensures
            n == Header::max_payload(capacity as int),
    {
        if capacity >= HEADER_SIZE {
            capacity - HEADER_SIZE
        } else {
            0
        }
    }
}

// ---------------------------------------------------------------------------
// Header
// ---------------------------------------------------------------------------

/// The six bytes of a header: direction, packet kind and flag as one byte
/// each, then the length as a 16-bit integer.
pub open spec fn header_bytes(h: Header) -> Seq<u8> {
    encode_pfix(h.direction.tag()) + encode_pfix(h.packet.tag()) + encode_pfix(h.flag.tag())
        + encode_u16(h.length)
}

/// Reading a tag of the field `field`: any byte that stands for no value of
/// the field is refused with `Deserialize`, the field's name and the byte.
pub open spec fn decode_tag<T>(
    b: Seq<u8>,
    found: spec_fn(u8) -> Option<T>,
    field: Seq<char>,
) -> Decoded<T> {
    match decode_tag_byte(b, field) {
        Ok((tag, n)) => match tag_or_error(found(tag), field, tag) {
            Ok(t) => Ok((t, n)),
            Err(e) => Err(e),
        },
        Err(e) => Err(e),
    }
}

/// Reading a header from the front of `b`: the four fields in order, each
/// failure that of the first field that cannot be read.
pub open spec fn decode_header(b: Seq<u8>) -> Decoded<Header> {
    match decode_tag(b, |t: u8| Direction::from_tag(t), "direction"@) {
        Err(e) => Err(e),
        Ok((direction, _)) => match decode_tag(b.skip(1), |t: u8| Packet::from_tag(t), "packet"@) {
            Err(e) => Err(e),
            Ok((packet, _)) => match decode_tag(b.skip(2), |t: u8| Flag::from_tag(t), "flag"@) {
                Err(e) => Err(e),
                Ok((flag, _)) => match decode_u16(b.skip(3)) {
                    Err(e) => Err(e),
                    Ok((length, _)) => Ok(
                        (Header { direction, packet, flag, length }, HEADER_SIZE as int),
                    ),
                },
            },
        },
    }
}

/// A header is read back as written, whatever follows it.
pub proof fn lemma_header_round_trip(h: Header, rest: Seq<u8>)
    ensures
        header_bytes(h).len() == HEADER_SIZE,
        decode_header(header_bytes(h) + rest) == Ok::<(Header, int), ErrorView>(
            (h, HEADER_SIZE as int),
        ),
{
    let b = header_bytes(h) + rest;
    lemma_pfix_round_trip(h.direction.tag(), b.skip(1));
    assert(b =~= encode_pfix(h.direction.tag()) + b.skip(1));
    lemma_pfix_round_trip(h.packet.tag(), b.skip(2));
    assert(b.skip(1) =~= encode_pfix(h.packet.tag()) + b.skip(2));
    lemma_pfix_round_trip(h.flag.tag(), b.skip(3));
    assert(b.skip(2) =~= encode_pfix(h.flag.tag()) + b.skip(3));
    lemma_u16_round_trip(h.length, rest);
    assert(b.skip(3) =~= encode_u16(h.length) + rest);
}

/// Writes a header at the cursor.
pub fn write_header(stream: &mut SlotStream, header: &Header) -> (r: Result<(), FusionError>)
    ensures
        writes(old(stream)@, final(stream)@, r, fit(header_bytes(*header), old(stream)@.room())),
{
    let ghost v0 = stream@;
    let ghost d = encode_pfix(header.direction.tag());
    let ghost p = encode_pfix(header.packet.tag());
    let ghost f = encode_pfix(header.flag.tag());
    let ghost l = encode_u16(header.length);
    let _ = stream.position();
    write_pfix(stream, header.direction.to_u8())?;
    proof {
        lemma_put_shape(v0, d);
    }
    write_pfix(stream, header.packet.to_u8())?;
    proof {
        lemma_put_twice(v0, d, p);
        lemma_put_shape(v0, d + p);
    }
    write_pfix(stream, header.flag.to_u8())?;
    proof {
        lemma_put_twice(v0, d + p, f);
        lemma_put_shape(v0, d + p + f);
    }
    write_u16(stream, header.length)?;
    proof {
        lemma_put_twice(v0, d + p + f, l);
    }
    Ok(())
}

/// Reads the header of the message in the slot. The cursor must stand at
/// the start of the slot.
pub fn consume_header(stream: &mut SlotStream) -> (r: Result<Header, FusionError>)
    requires
        old(stream)@.pos == 0,
    ensures
        reads(old(stream)@, final(stream)@, r, decode_header(old(stream)@.ahead())),
{
    let ghost b = stream@.ahead();
    let _ = stream.position();
    let direction = Direction::try_from(read_tag(stream, "direction")?)?;
    assert(stream@.ahead() == b.skip(1));
    let packet = Packet::try_from(read_tag(stream, "packet")?)?;
    assert(stream@.ahead() == b.skip(2));
    let flag = Flag::try_from(read_tag(stream, "flag")?)?;
    assert(stream@.ahead() == b.skip(3));
    let length = read_u16(stream)?;
    Ok(Header { direction, packet, flag, length })
}

// ---------------------------------------------------------------------------
// Parse and Failure: one text behind the header
// ---------------------------------------------------------------------------

/// The length that the header of a text message announces: two bytes for
/// the string's prefix and the text's bytes.
pub open spec fn text_length(text: Seq<u8>) -> int {
    2 + text.len() as int
}

/// The header of a message that carries `text`.
pub open spec fn text_header(direction: Direction, packet: Packet, text: Seq<u8>) -> Header {
    Header { direction, packet, flag: Flag::Last, length: text_length(text) as u16 }
}

/// The announced length as the error carries it: as it is, or the largest
/// number the machine holds where it is beyond that.
pub open spec fn reported_length(text: Seq<u8>) -> usize {
    if text_length(text) > usize::MAX {
        usize::MAX
    } else {
        text_length(text) as usize
    }
}

/// A message that carries one text, as it is written into a slot of
/// `capacity` bytes. A text whose announced length is over the slot's
/// payload limit is refused with `PayloadTooLarge` and that length, one
/// whose announced length does not fit the header's 16 bits with
/// `ValueTooLarge`, and one whose string does not fit behind the header with
/// `SlotOverflow`. Each refusal comes before anything is written.
pub open spec fn text_message(
    direction: Direction,
    packet: Packet,
    text: Seq<u8>,
    capacity: int,
) -> Encoded {
    if text_length(text) > Header::max_payload(capacity) {
        Err(ErrorView::PayloadTooLarge(reported_length(text)))
    } else if text_length(text) > u16::MAX {
        Err(ErrorView::ValueTooLarge)
    } else {
        match str_written(text, capacity - HEADER_SIZE) {
            Ok(body) => Ok(header_bytes(text_header(direction, packet, text)) + body),
            Err(e) => Err(e),
        }
    }
}

/// How writing a message that carries one text went: as [`writes`] from the
/// start of the slot, and a refusal has left every byte as it was.
pub open spec fn text_writes(
    before: SlotView,
    end: SlotView,
    r: Result<(), FusionError>,
    model: Encoded,
) -> bool {
    &&& writes(before.at(0), end, r, model)
    &&& r is Err ==> end == before.at(0)
}

/// Writes a message that carries one text: the header, then the text as a
/// string. The string is made first, so that a text that cannot be sent is
/// refused before a byte of the slot is touched.
fn prepare_text(stream: &mut SlotStream, direction: Direction, packet: Packet, text: &str) -> (r:
    Result<(), FusionError>)
    ensures
        text_writes(
            old(stream)@,
            final(stream)@,
            r,
            text_message(direction, packet, text.spec_bytes(), old(stream)@.bytes.len() as int),
        ),
{
    stream.reset();
    let ghost v0 = stream@;
    let len = text.as_bytes().len();
    let capacity = stream.capacity();
    let max = Header::payload_max_size(capacity);
    if max < 2 || len > max - 2 {
        let announced = if len > usize::MAX - 2 {
            usize::MAX
        } else {
            len + 2
        };
        return Err(FusionError::PayloadTooLarge(announced));
    }
    if len > u16::MAX as usize - 2 {
        return Err(FusionError::ValueTooLarge);
    }
    let body = rmp_write_str(text);
    if body.len() > capacity - HEADER_SIZE {
        return Err(FusionError::SlotOverflow);
    }
    let header = Header { direction, packet, flag: Flag::Last, length: (len + 2) as u16 };
    proof {
        lemma_header_round_trip(header, Seq::empty());
        lemma_put_shape(v0, header_bytes(header));
        lemma_put_twice(v0, header_bytes(header), body@);
    }
    let r = write_header(stream, &header);
    assert(r is Ok);
    let r = write_raw(stream, body.as_slice());
    assert(r is Ok);
    Ok(())
}

/// Writes a Parse message for the worker: the header, then the query text.
/// The header announces two bytes more than the text has. A query that
/// cannot be sent leaves the slot as it was.
pub fn prepare_query(stream: &mut SlotStream, query: &str) -> (r: Result<(), FusionError>)
    ensures
        text_writes(
            old(stream)@,
            final(stream)@,
            r,
            text_message(
                Direction::ToWorker,
                Packet::Parse,
                query.spec_bytes(),
                old(stream)@.bytes.len() as int,
            ),
        ),
{
    prepare_text(stream, Direction::ToWorker, Packet::Parse, query)
}

/// Reads the query of a Parse message without copying it. Returns the query
/// and its length in bytes, and leaves the cursor at the start of the query.
pub fn read_query<'a>(stream: &'a mut SlotStream) -> (r: Result<(&'a str, u32), FusionError>)
    ensures
        reads(old(stream)@, final(stream)@, text_seen(r), decode_text(old(stream)@.ahead())),
{
    read_text(stream)
}

/// Writes a Failure message for the backend: the header, then the error
/// text. A text that cannot be sent leaves the slot as it was.
pub fn prepare_error(stream: &mut SlotStream, message: &str) -> (r: Result<(), FusionError>)
    ensures
        text_writes(
            old(stream)@,
            final(stream)@,
            r,
            text_message(
                Direction::ToBackend,
                Packet::Failure,
                message.spec_bytes(),
                old(stream)@.bytes.len() as int,
            ),
        ),
{
    prepare_text(stream, Direction::ToBackend, Packet::Failure, message)
}

/// Reads the text of a Failure message into a string of its own, and leaves
/// the cursor at the start of the text.
pub fn read_error(stream: &mut SlotStream) -> (r: Result<String, FusionError>)
    ensures
        reads(old(stream)@, final(stream)@, viewed(r), decode_text_owned(old(stream)@.ahead())),
{
    match read_text(stream) {
        Ok((text, _)) => Ok(text.to_owned()),
        Err(e) => Err(e),
    }
}

// ---------------------------------------------------------------------------
// Messages whose length is known only once they are written
// ---------------------------------------------------------------------------

/// The header of a message whose payload has `length` bytes.
pub open spec fn sized_header(direction: Direction, packet: Packet, length: int) -> Header {
    Header { direction, packet, flag: Flag::Last, length: length as u16 }
}

/// A message whose header is written after its payload, as it is written
/// into a slot of `capacity` bytes; `payload` is what writing the payload
/// behind a header gives. A slot too small for a header is refused with
/// `SlotOverflow`, then the payload's own error comes, then `ValueTooLarge`
/// for a payload whose length does not fit the header's 16 bits.
pub open spec fn deferred_message(
    direction: Direction,
    packet: Packet,
    payload: Encoded,
    capacity: int,
) -> Encoded {
    if capacity < HEADER_SIZE {
        Err(ErrorView::SlotOverflow)
    } else {
        match payload {
            Err(e) => Err(e),
            Ok(body) => if body.len() > u16::MAX {
                Err(ErrorView::ValueTooLarge)
            } else {
                Ok(header_bytes(sized_header(direction, packet, body.len() as int)) + body)
            },
        }
    }
}

/// How writing such a message went. On success the message stands at the
/// start of the slot and the cursor behind it. On failure the error is the
/// one that `model` gives, the slot has kept its size, and where it has room
/// for a header it starts with the placeholder, never with the header of the
/// message that failed.
pub open spec fn deferred_writes(
    before: SlotView,
    end: SlotView,
    r: Result<(), FusionError>,
    model: Encoded,
) -> bool {
    match r {
        Ok(()) => writes(before.at(0), end, r, model),
        Err(e) => {
            &&& model == Err::<Seq<u8>, ErrorView>(e@)
            &&& end.bytes.len() == before.bytes.len()
            &&& before.bytes.len() >= HEADER_SIZE ==> end.bytes.subrange(0, HEADER_SIZE as int)
                == header_bytes(Header::placeholder())
        },
    }
}

/// The header of such a message announces exactly the bytes that follow it,
/// and is read back with the direction and packet kind it was written for.
pub proof fn lemma_deferred_length(
    direction: Direction,
    packet: Packet,
    payload: Encoded,
    capacity: int,
    rest: Seq<u8>,
)
    ensures
        deferred_message(direction, packet, payload, capacity) matches Ok(message) ==> {
            &&& payload matches Ok(body)
            &&& message.len() == HEADER_SIZE + body.len()
            &&& message.skip(HEADER_SIZE as int) == body
            &&& decode_header(message + rest) == Ok::<(Header, int), ErrorView>(
                (sized_header(direction, packet, message.len() - HEADER_SIZE), HEADER_SIZE as int),
            )
            &&& sized_header(direction, packet, message.len() - HEADER_SIZE).length
                == message.len() - HEADER_SIZE
        },
{
    if deferred_message(direction, packet, payload, capacity) is Ok {
        let body = payload->Ok_0;
        let header = sized_header(direction, packet, body.len() as int);
        let message = header_bytes(header) + body;
        lemma_header_round_trip(header, body + rest);
        assert(message + rest =~= header_bytes(header) + (body + rest));
        assert(message.skip(HEADER_SIZE as int) =~= body);
    }
}

/// Starts a message whose length is not known yet: puts the cursor at the
/// start of the slot and writes a placeholder where the header will stand.
fn begin_deferred(stream: &mut SlotStream) -> (r: Result<usize, FusionError>)
    ensures
        match r {
            Ok(pos_init) => {
                &&& pos_init == HEADER_SIZE
                &&& old(stream)@.bytes.len() >= HEADER_SIZE
                &&& final(stream)@ == old(stream)@.at(0).put(header_bytes(Header::placeholder()))
            },
            Err(e) => {
                &&& e@ == ErrorView::SlotOverflow
                &&& old(stream)@.bytes.len() < HEADER_SIZE
                &&& final(stream)@.bytes.len() == old(stream)@.bytes.len()
            },
        },
{
    stream.reset();
    proof {
        lemma_header_round_trip(Header::placeholder(), Seq::empty());
    }
    write_header(stream, &Header::default())?;
    Ok(stream.position())
}

/// Ends such a message: measures the payload that was written behind the
/// placeholder, writes the header over the placeholder, and puts the cursor
/// back behind the payload.
fn finish_deferred(
    stream: &mut SlotStream,
    pos_init: usize,
    direction: Direction,
    packet: Packet,
    Ghost(start): Ghost<SlotView>,
    Ghost(body): Ghost<Seq<u8>>,
) -> (r: Result<(), FusionError>)
    requires
        pos_init == HEADER_SIZE,
        start.pos == 0,
        HEADER_SIZE + body.len() <= start.bytes.len(),
        old(stream)@ == start.put(header_bytes(Header::placeholder()) + body),
    ensures
        match r {
            Ok(()) => {
                &&& body.len() <= u16::MAX
                &&& final(stream)@ == start.put(
                    header_bytes(sized_header(direction, packet, body.len() as int)) + body,
                )
            },
            Err(e) => {
                &&& e@ == ErrorView::ValueTooLarge
                &&& body.len() > u16::MAX
                &&& final(stream)@ == old(stream)@
            },
        },
{
    proof {
        lemma_header_round_trip(Header::placeholder(), Seq::empty());
    }
    let pos_final = stream.position();
    let size = pos_final - pos_init;
    if size > u16::MAX as usize {
        return Err(FusionError::ValueTooLarge);
    }
    let length = size as u16;
    let header = Header { direction, packet, flag: Flag::Last, length };
    let ghost written = stream@;
    proof {
        lemma_header_round_trip(header, Seq::empty());
    }
    stream.reset();
    let r = write_header(stream, &header);
    assert(r is Ok);
    let r = stream.rewind(size);
    assert(r is Ok);
    proof {
        assert(stream@.bytes =~= start.put(header_bytes(header) + body).bytes);
    }
    Ok(())
}

/// Writes a message whose payload has just been written behind the
/// placeholder, `written` being how that went.
fn end_deferred(
    stream: &mut SlotStream,
    pos_init: usize,
    direction: Direction,
    packet: Packet,
    written: Result<(), FusionError>,
    Ghost(start): Ghost<SlotView>,
    Ghost(payload): Ghost<Encoded>,
) -> (r: Result<(), FusionError>)
    requires
        pos_init == HEADER_SIZE,
        start.bytes.len() >= HEADER_SIZE,
        writes(
            start.at(0).put(header_bytes(Header::placeholder())),
            old(stream)@,
            written,
            payload,
        ),
    ensures
        deferred_writes(
            start,
            final(stream)@,
            r,
            deferred_message(direction, packet, payload, start.bytes.len() as int),
        ),
{
    let ghost placeholder = header_bytes(Header::placeholder());
    proof {
        lemma_header_round_trip(Header::placeholder(), Seq::empty());
        lemma_put_shape(start.at(0), placeholder);
        lemma_writes_then(start.at(0), placeholder, stream@, written, payload);
    }
    match written {
        Err(e) => Err(e),
        Ok(()) => {
            let ghost body = payload->Ok_0;
            let ghost filled = stream@;
            let r = finish_deferred(
                stream,
                pos_init,
                direction,
                packet,
                Ghost(start.at(0)),
                Ghost(body),
            );
            proof {
                lemma_put_shape(start.at(0), placeholder + body);
                assert(filled.bytes.subrange(0, HEADER_SIZE as int) =~= placeholder);
                lemma_header_round_trip(
                    sized_header(direction, packet, body.len() as int),
                    Seq::empty(),
                );
            }
            r
        },
    }
}

/// Writes a Metadata message for the backend: the tables whose description
/// the worker asks for, as an array of table references.
pub fn prepare_table_refs(stream: &mut SlotStream, tables: &[&TableReference]) -> (r: Result<
    (),
    FusionError,
>)
    ensures
        deferred_writes(
            old(stream)@,
            final(stream)@,
            r,
            deferred_message(
                Direction::ToBackend,
                Packet::Metadata,
                array_written(forms(tables@), old(stream)@.bytes.len() - HEADER_SIZE),
                old(stream)@.bytes.len() as int,
            ),
        ),
{
    let pos_init = begin_deferred(stream)?;
    let written = write_array(stream, tables);
    end_deferred(
        stream,
        pos_init,
        Direction::ToBackend,
        Packet::Metadata,
        written,
        Ghost(old(stream)@),
        Ghost(array_written(forms(tables@), old(stream)@.bytes.len() - HEADER_SIZE)),
    )
}

/// Reads the payload of a Metadata message for the backend: the table
/// references, each without a catalog.
pub fn read_table_refs(stream: &mut SlotStream) -> (r: Result<Vec<TableReference>, FusionError>)
    ensures
        reads(
            old(stream)@,
            final(stream)@,
            got_all(r),
            decode_array::<TableRefView>(old(stream)@.ahead()),
        ),
{
    read_array(stream)
}

/// Writes a Bind message for the worker: the parameters of a statement, as
/// an array of scalars.
pub fn prepare_params(stream: &mut SlotStream, params: &[ScalarValue]) -> (r: Result<
    (),
    FusionError,
>)
    ensures
        deferred_writes(
            old(stream)@,
            final(stream)@,
            r,
            deferred_message(
                Direction::ToWorker,
                Packet::Bind,
                array_written(forms(params@), old(stream)@.bytes.len() - HEADER_SIZE),
                old(stream)@.bytes.len() as int,
            ),
        ),
{
    let pos_init = begin_deferred(stream)?;
    let written = write_array(stream, params);
    end_deferred(
        stream,
        pos_init,
        Direction::ToWorker,
        Packet::Bind,
        written,
        Ghost(old(stream)@),
        Ghost(array_written(forms(params@), old(stream)@.bytes.len() - HEADER_SIZE)),
    )
}

/// Reads the payload of a Bind message: the parameters in their order.
pub fn read_params(stream: &mut SlotStream) -> (r: Result<Vec<ScalarValue>, FusionError>)
    ensures
        reads(
            old(stream)@,
            final(stream)@,
            got_all(r),
            decode_array::<ScalarView>(old(stream)@.ahead()),
        ),
{
    read_array(stream)
}

/// Writes a Metadata message for the worker: the description of each of the
/// tables, as an array.
pub fn prepare_metadata(relations: &[Relation], stream: &mut SlotStream) -> (r: Result<
    (),
    FusionError,
>)
    ensures
        deferred_writes(
            old(stream)@,
            final(stream)@,
            r,
            deferred_message(
                Direction::ToWorker,
                Packet::Metadata,
                array_written(forms(relations@), old(stream)@.bytes.len() - HEADER_SIZE),
                old(stream)@.bytes.len() as int,
            ),
        ),
{
    let pos_init = begin_deferred(stream)?;
    let written = write_array(stream, relations);
    end_deferred(
        stream,
        pos_init,
        Direction::ToWorker,
        Packet::Metadata,
        written,
        Ghost(old(stream)@),
        Ghost(array_written(forms(relations@), old(stream)@.bytes.len() - HEADER_SIZE)),
    )
}

/// Reads the payload of a Metadata message for the worker: the description
/// of each table.
pub fn read_metadata(stream: &mut SlotStream) -> (r: Result<Vec<Table>, FusionError>)
    ensures
        reads(
            old(stream)@,
            final(stream)@,
            got_all(r),
            decode_array::<RelationView>(old(stream)@.ahead()),
        ),
{
    read_array(stream)
}

// ---------------------------------------------------------------------------
// What holds of the messages
// ---------------------------------------------------------------------------

/// A message that carries one text is read back as written: the header with
/// the direction and the packet kind it was written for, then the text.
pub proof fn lemma_text_message_round_trip(
    direction: Direction,
    packet: Packet,
    text: Seq<char>,
    capacity: int,
    rest: Seq<u8>,
)
    ensures
        text_message(direction, packet, encode_utf8(text), capacity) matches Ok(message) ==> {
            &&& decode_header(message + rest) == Ok::<(Header, int), ErrorView>(
                (text_header(direction, packet, encode_utf8(text)), HEADER_SIZE as int),
            )
            &&& decode_text_owned((message + rest).skip(HEADER_SIZE as int)) == Ok::<
                (Seq<char>, int),
                ErrorView,
            >((text, message.len() - HEADER_SIZE - encode_utf8(text).len()))
        },
{
    let bytes = encode_utf8(text);
    if text_message(direction, packet, bytes, capacity) is Ok {
        let header = header_bytes(text_header(direction, packet, bytes));
        let body = encode_str(bytes);
        let message = header + body;
        lemma_header_round_trip(text_header(direction, packet, bytes), body + rest);
        assert(message + rest =~= header + (body + rest));
        assert((message + rest).skip(HEADER_SIZE as int) =~= body + rest);
        lemma_text_round_trip(text, rest);
    }
}

/// A text is refused with `PayloadTooLarge`, and the length that its header
/// would announce, exactly when that length is over the slot's payload
/// limit. Below that
/// limit a text of fewer than 256 bytes is always written; a longer one has
/// a string prefix of three or five bytes, one or three more than the header
/// counts for it, and is written only where the slot has that room too.
pub proof fn lemma_text_boundary(
    direction: Direction,
    packet: Packet,
    text: Seq<u8>,
    capacity: int,
)
    requires
        0 <= capacity,
    ensures
        text_length(text) > Header::max_payload(capacity) <==> text_message(
            direction,
            packet,
            text,
            capacity,
        ) == Err::<Seq<u8>, ErrorView>(ErrorView::PayloadTooLarge(reported_length(text))),
        text_length(text) <= Header::max_payload(capacity) && text.len() < 0x100
            ==> text_message(direction, packet, text, capacity) is Ok,
        text_length(text) <= Header::max_payload(capacity) && text_length(text) <= u16::MAX ==> (
        text_message(direction, packet, text, capacity) is Ok <==> HEADER_SIZE + encode_str(
            text,
        ).len() <= capacity),
{
}

/// A message whose header is written after its payload is read back as
/// written: the header announces exactly the payload's bytes, and the
/// payload is read back as the items that were written.
pub proof fn lemma_deferred_round_trip<T: Wire>(
    direction: Direction,
    packet: Packet,
    items: Seq<T>,
    capacity: int,
    rest: Seq<u8>,
)
    requires
        all_valid(items),
    ensures
        deferred_message(
            direction,
            packet,
            array_written(items, capacity - HEADER_SIZE),
            capacity,
        ) matches Ok(message) ==> {
            &&& decode_header(message + rest) == Ok::<(Header, int), ErrorView>(
                (sized_header(direction, packet, message.len() - HEADER_SIZE), HEADER_SIZE as int),
            )
            &&& sized_header(direction, packet, message.len() - HEADER_SIZE).length
                == message.len() - HEADER_SIZE
            &&& decode_array::<T>((message + rest).skip(HEADER_SIZE as int)) == Ok::<
                (Seq<T::Read>, int),
                ErrorView,
            >((items_read(items), message.len() - HEADER_SIZE))
        },
{
    let payload = array_written(items, capacity - HEADER_SIZE);
    if deferred_message(direction, packet, payload, capacity) is Ok {
        let body = payload->Ok_0;
        let message = deferred_message(direction, packet, payload, capacity)->Ok_0;
        lemma_deferred_length(direction, packet, payload, capacity, rest);
        lemma_array_round_trip(items, capacity - HEADER_SIZE, rest);
        assert((message + rest).skip(HEADER_SIZE as int) =~= body + rest);
    }
}

/// A Bind message is read back as written: the header, then the parameters.
pub proof fn lemma_params_round_trip(params: Seq<ScalarValue>, capacity: int, rest: Seq<u8>)
    ensures
        deferred_message(
            Direction::ToWorker,
            Packet::Bind,
            array_written(forms(params), capacity - HEADER_SIZE),
            capacity,
        ) matches Ok(message) ==> {
            &&& decode_header(message + rest) == Ok::<(Header, int), ErrorView>(
                (
                    sized_header(Direction::ToWorker, Packet::Bind, message.len() - HEADER_SIZE),
                    HEADER_SIZE as int,
                ),
            )
            &&& decode_array::<ScalarView>((message + rest).skip(HEADER_SIZE as int)) == Ok::<
                (Seq<ScalarView>, int),
                ErrorView,
            >((forms(params), message.len() - HEADER_SIZE))
        },
{
    let items = forms(params);
    assert forall|i: int| 0 <= i < items.len() implies (#[trigger] items[i]).valid() by {
        lemma_scalar_valid(params[i]);
    }
    assert(items_read(items) =~= items);
    lemma_deferred_round_trip(Direction::ToWorker, Packet::Bind, items, capacity, rest);
}

/// A Metadata message for the backend is read back as written: the header,
/// then the table references, each without its catalog.
pub proof fn lemma_table_refs_round_trip(
    tables: Seq<&TableReference>,
    capacity: int,
    rest: Seq<u8>,
)
    ensures
        deferred_message(
            Direction::ToBackend,
            Packet::Metadata,
            array_written(forms(tables), capacity - HEADER_SIZE),
            capacity,
        ) matches Ok(message) ==> {
            &&& decode_header(message + rest) == Ok::<(Header, int), ErrorView>(
                (
                    sized_header(
                        Direction::ToBackend,
                        Packet::Metadata,
                        message.len() - HEADER_SIZE,
                    ),
                    HEADER_SIZE as int,
                ),
            )
            &&& decode_array::<TableRefView>((message + rest).skip(HEADER_SIZE as int)) == Ok::<
                (Seq<TableRefView>, int),
                ErrorView,
            >((items_read(forms(tables)), message.len() - HEADER_SIZE))
        },
{
    lemma_deferred_round_trip(
        Direction::ToBackend,
        Packet::Metadata,
        forms(tables),
        capacity,
        rest,
    );
}

/// A Metadata message for the worker is read back as written: the header,
/// then for each table its identifier and the columns that are part of it.
pub proof fn lemma_metadata_round_trip(relations: Seq<Relation>, capacity: int, rest: Seq<u8>)
    ensures
        deferred_message(
            Direction::ToWorker,
            Packet::Metadata,
            array_written(forms(relations), capacity - HEADER_SIZE),
            capacity,
        ) matches Ok(message) ==> {
            &&& decode_header(message + rest) == Ok::<(Header, int), ErrorView>(
                (
                    sized_header(
                        Direction::ToWorker,
                        Packet::Metadata,
                        message.len() - HEADER_SIZE,
                    ),
                    HEADER_SIZE as int,
                ),
            )
            &&& decode_array::<RelationView>((message + rest).skip(HEADER_SIZE as int)) == Ok::<
                (Seq<TableView>, int),
                ErrorView,
            >((items_read(forms(relations)), message.len() - HEADER_SIZE))
        },
{
    lemma_deferred_round_trip(
        Direction::ToWorker,
        Packet::Metadata,
        forms(relations),
        capacity,
        rest,
    );
}

/// The payload does not say which of the two Metadata layouts it has: table
/// references that are read as table descriptions are not refused for what
/// they are. With one reference or more the reading fails, on the marker of
/// the first reference's array where a table's identifier is expected; with
/// none it gives no tables.
pub proof fn lemma_table_refs_read_as_metadata(
    tables: Seq<TableRefView>,
    room: int,
    rest: Seq<u8>,
)
    ensures
        array_written(tables, room) matches Ok(payload) ==> decode_array::<RelationView>(
            payload + rest,
        ) == (if tables.len() == 0 {
            Ok::<(Seq<TableView>, int), ErrorView>((Seq::empty(), 1))
        } else {
            Err::<(Seq<TableView>, int), ErrorView>(
                ErrorView::TypeMismatch(encode_array_len(tables[0].arity())[0]),
            )
        }),
{
    if array_written(tables, room) is Ok {
        let head = encode_array_len(tables.len() as u32);
        let count = fit(head, room);
        let body = items_written(tables, after(count, room))->Ok_0;
        let b = head + body + rest;
        lemma_array_len_round_trip(tables.len() as u32, body + rest);
        assert(b =~= head + (body + rest));
        assert(b.skip(head.len() as int) =~= body + rest);
        if tables.len() > 0 {
            let first = tables[0].written(after(count, room))->Ok_0;
            assert(first[0] == encode_array_len(tables[0].arity())[0]);
            assert((body + rest)[0] == first[0]);
        }
    }
}

// ---------------------------------------------------------------------------
// Whom to wake
// ---------------------------------------------------------------------------

/// The number of a slot.
pub type SlotNumber = u32;

/// The process to wake once a message is in its slot and the slot is
/// released.
#[derive(Clone, Copy, Debug, PartialEq, Eq, Structural)]
pub enum Wakeup {
    /// The worker, of which there is one.
    Worker,
    /// The backend that owns the slot.
    SlotOwner(SlotNumber),
}

/// The process that reads a message of the given direction in the given
/// slot.
pub open spec fn reader_of(slot_id: SlotNumber, direction: Direction) -> Wakeup {
    match direction {
        Direction::ToWorker => Wakeup::Worker,
        Direction::ToBackend => Wakeup::SlotOwner(slot_id),
    }
}

/// Says which process is to be woken for a message: the worker for one that
/// goes to the worker, the owner of the slot for one that goes to a backend.
/// The caller wakes it once the slot is released.
pub fn signal(slot_id: SlotNumber, direction: Direction) -> (wakeup: Wakeup)
    ensures
        wakeup == reader_of(slot_id, direction),
{
    match direction {
        Direction::ToWorker => Wakeup::Worker,
        Direction::ToBackend => Wakeup::SlotOwner(slot_id),
    }
}

/// What a send hands back: the slot, to be released whatever happened, and
/// the process to wake after that, or the error.
pub struct Sent {
    pub stream: SlotStream,
    pub outcome: Result<Wakeup, FusionError>,
}

impl Sent {
    /// The outcome of the writing alone.
    pub open spec fn written(self) -> Result<(), FusionError> {
        match self.outcome {
            Ok(_) => Ok(()),
            Err(e) => Err(e),
        }
    }

    /// A message that was written wakes its reader.
    pub open spec fn wakes(self, slot_id: SlotNumber, direction: Direction) -> bool {
        self.outcome matches Ok(wakeup) ==> wakeup == reader_of(slot_id, direction)
    }
}

/// Puts slot and outcome together.
fn sent(
    slot_id: SlotNumber,
    direction: Direction,
    stream: SlotStream,
    written: Result<(), FusionError>,
) -> (s: Sent)
    ensures
        s.stream == stream,
        s.written() is Ok <==> written is Ok,
        s.written() is Err ==> s.written()->Err_0 == written->Err_0,
        s.wakes(slot_id, direction),
{
    let outcome = match written {
        Ok(()) => Ok(signal(slot_id, direction)),
        Err(e) => Err(e),
    };
    Sent { stream, outcome }
}

/// Writes a query into the slot and says whom to wake: the worker.
pub fn send_query(slot_id: SlotNumber, stream: SlotStream, query: &str) -> (s: Sent)
    ensures
        text_writes(
            stream@,
            s.stream@,
            s.written(),
            text_message(
                Direction::ToWorker,
                Packet::Parse,
                query.spec_bytes(),
                stream@.bytes.len() as int,
            ),
        ),
        s.wakes(slot_id, Direction::ToWorker),
{
    let mut stream = stream;
    let written = prepare_query(&mut stream, query);
    sent(slot_id, Direction::ToWorker, stream, written)
}

/// Writes the parameters of a statement into the slot and says whom to
/// wake: the worker.
pub fn send_params(slot_id: SlotNumber, stream: SlotStream, params: &[ScalarValue]) -> (s: Sent)
    ensures
        deferred_writes(
            stream@,
            s.stream@,
            s.written(),
            deferred_message(
                Direction::ToWorker,
                Packet::Bind,
                array_written(forms(params@), stream@.bytes.len() - HEADER_SIZE),
                stream@.bytes.len() as int,
            ),
        ),
        s.wakes(slot_id, Direction::ToWorker),
{
    let mut stream = stream;
    let written = prepare_params(&mut stream, params);
    sent(slot_id, Direction::ToWorker, stream, written)
}

/// Writes an error text into the slot and says whom to wake: the backend
/// that owns the slot.
pub fn send_error(slot_id: SlotNumber, stream: SlotStream, message: &str) -> (s: Sent)
    ensures
        text_writes(
            stream@,
            s.stream@,
            s.written(),
            text_message(
                Direction::ToBackend,
                Packet::Failure,
                message.spec_bytes(),
                stream@.bytes.len() as int,
            ),
        ),
        s.wakes(slot_id, Direction::ToBackend),
{
    let mut stream = stream;
    let written = prepare_error(&mut stream, message);
    sent(slot_id, Direction::ToBackend, stream, written)
}

/// Writes table references into the slot and says whom to wake: the backend
/// that owns the slot, which is to resolve them.
pub fn send_table_refs(slot_id: SlotNumber, stream: SlotStream, tables: &[&TableReference]) -> (s:
    Sent)
    ensures
        deferred_writes(
            stream@,
            s.stream@,
            s.written(),
            deferred_message(
                Direction::ToBackend,
                Packet::Metadata,
                array_written(forms(tables@), stream@.bytes.len() - HEADER_SIZE),
                stream@.bytes.len() as int,
            ),
        ),
        s.wakes(slot_id, Direction::ToBackend),
{
    let mut stream = stream;
    let written = prepare_table_refs(&mut stream, tables);
    sent(slot_id, Direction::ToBackend, stream, written)
}

/// Writes the description of tables into the slot and says whom to wake:
/// the worker.
pub fn send_metadata(slot_id: SlotNumber, stream: SlotStream, relations: &[Relation]) -> (s: Sent)
    ensures
        deferred_writes(
            stream@,
            s.stream@,
            s.written(),
            deferred_message(
                Direction::ToWorker,
                Packet::Metadata,
                array_written(forms(relations@), stream@.bytes.len() - HEADER_SIZE),
                stream@.bytes.len() as int,
            ),
        ),
        s.wakes(slot_id, Direction::ToWorker),
{
    let mut stream = stream;
    let written = prepare_metadata(relations, &mut stream);
    sent(slot_id, Direction::ToWorker, stream, written)
}

} // verus!
