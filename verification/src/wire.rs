//! Items on a slot: single MessagePack items, texts, and arrays of values
//! that have a place in a payload.
//!
//! Every writing function is held to a model that gives the bytes to write
//! or the error that stops the writing, every reading function to one that
//! gives the value and the number of bytes it takes, or the error. A write
//! of a single item either fits and moves the cursor behind the item, or
//! fails and changes nothing. A read of a single item either takes it and
//! moves the cursor behind it, or fails and leaves the cursor where it was.

use crate::error::{ErrorView, FusionError};
use crate::ipc::{lemma_put_shape, lemma_put_twice, SlotStream, SlotView};
use crate::msgpack::{
    decode_array_len, decode_bin_len, decode_bool, decode_pfix, decode_str_len, decode_u16,
    decode_u32, decode_u64, decode_u8, encode_array_len, encode_bin_len, encode_bool,
    encode_pfix, encode_str, encode_str_len, encode_u16, encode_u32, encode_u64, encode_u8,
    lemma_array_len_round_trip, lemma_str_len_round_trip, read_agrees,
    rmp_read_array_len, rmp_read_bin_len, rmp_read_bool, rmp_read_pfix, rmp_read_str_len,
    rmp_read_u16, rmp_read_u32, rmp_read_u64, rmp_read_u8, rmp_write_array_len,
    rmp_write_bin_len, rmp_write_bool, rmp_write_pfix, rmp_write_str, rmp_write_u16,
    rmp_write_u32, rmp_write_u64, rmp_write_u8, str_from_utf8, Decoded,
};
use vstd::prelude::*;
use vstd::string::StringSliceAdditionalSpecFns;
use vstd::utf8::{
    decode_utf8, encode_utf8, encode_utf8_decode_utf8, encode_utf8_valid_utf8, valid_utf8,
};

verus! {

/// What a writing call is to put into the slot: the bytes, or the error that
/// stops it.
pub type Encoded = Result<Seq<u8>, ErrorView>;

/// What is written when `data` is to go where `room` bytes are left.
pub open spec fn fit(data: Seq<u8>, room: int) -> Encoded {
    if data.len() <= room {
        Ok(data)
    } else {
        Err(ErrorView::SlotOverflow)
    }
}

/// How a writing call went. On success the bytes that `model` gives fitted
/// the room, and stand at the old cursor with the cursor behind them. On
/// failure the error is the one that `model` gives; the slot has kept its
/// size and the bytes that were before the old cursor.
pub open spec fn writes(
    before: SlotView,
    after: SlotView,
    r: Result<(), FusionError>,
    model: Encoded,
) -> bool {
    match r {
        Ok(()) => model matches Ok(data) && data.len() <= before.room() && after == before.put(
            data,
        ),
        Err(e) => model == Err::<Seq<u8>, ErrorView>(e@) && after.keeps_before(before),
    }
}

/// How a reading call went. On success the value is the one that `model`
/// gives and the cursor has moved over the bytes that `model` counts, which
/// were ahead. On failure the error is the one that `model` gives and the
/// cursor is somewhere in the slot. The slot's bytes are the same either
/// way.
pub open spec fn reads<T>(
    before: SlotView,
    after: SlotView,
    r: Result<T, FusionError>,
    model: Decoded<T>,
) -> bool {
    match r {
        Ok(v) => model matches Ok((mv, n)) && mv == v && 0 <= n <= before.room() && after
            == before.at(before.pos + n),
        Err(e) => model == Err::<(T, int), ErrorView>(e@) && after.bytes == before.bytes
            && after.wf(),
    }
}

/// Moves the cursor over an item that a reading call has taken from the
/// bytes ahead, `rest` of which it left unread.
fn take<T>(stream: &mut SlotStream, got: Result<(T, usize), FusionError>, Ghost(model): Ghost<
    Decoded<T>,
>) -> (r: Result<T, FusionError>)
    requires
        old(stream)@.wf(),
        read_agrees(got, model, old(stream)@.ahead().len()),
        model matches Ok((_, n)) ==> 0 <= n,
    ensures
        reads(old(stream)@, final(stream)@, r, model),
        r is Err ==> final(stream)@ == old(stream)@,
{
    match got {
        Ok((v, rest)) => {
            let room = stream.remaining();
            stream.advance(room - rest);
            Ok(v)
        },
        Err(e) => Err(e),
    }
}

/// Writes bytes as they are.
pub fn write_raw(stream: &mut SlotStream, data: &[u8]) -> (r: Result<(), FusionError>)
    ensures
        old(stream)@.wf(),
        writes(old(stream)@, final(stream)@, r, fit(data@, old(stream)@.room())),
        r is Err ==> final(stream)@ == old(stream)@,
{
    stream.write_bytes(data)
}

/// A result with its value seen through its view.
pub open spec fn viewed<T: View>(r: Result<T, FusionError>) -> Result<T::V, FusionError> {
    match r {
        Ok(value) => Ok(value@),
        Err(e) => Err(e),
    }
}

/// What writing a small number gives where `room` bytes are left:
/// `ValueTooLarge` from 128 on, which one byte cannot hold in this form,
/// else the byte if it fits the room.
pub open spec fn pfix_written(val: u8, room: int) -> Encoded {
    if val >= 0x80 {
        Err(ErrorView::ValueTooLarge)
    } else {
        fit(encode_pfix(val), room)
    }
}

/// Writes a small number, below 128, as one byte.
pub fn write_pfix(stream: &mut SlotStream, val: u8) -> (r: Result<(), FusionError>)
    ensures
        writes(old(stream)@, final(stream)@, r, pfix_written(val, old(stream)@.room())),
        r is Err ==> final(stream)@ == old(stream)@,
{
    if val >= 0x80 {
        let _ = stream.position();
        return Err(FusionError::ValueTooLarge);
    }
    write_raw(stream, rmp_write_pfix(val).as_slice())
}

/// Reads a small number written as one byte.
pub fn read_pfix(stream: &mut SlotStream) -> (r: Result<u8, FusionError>)
    ensures
        reads(old(stream)@, final(stream)@, r, decode_pfix(old(stream)@.ahead())),
        r is Err ==> final(stream)@ == old(stream)@,
{
    let got = rmp_read_pfix(stream.peek_rest());
    take(stream, got, Ghost(decode_pfix(stream@.ahead())))
}

/// Writes a boolean as one byte.
pub fn write_bool(stream: &mut SlotStream, val: bool) -> (r: Result<(), FusionError>)
    ensures
        writes(old(stream)@, final(stream)@, r, fit(encode_bool(val), old(stream)@.room())),
        r is Err ==> final(stream)@ == old(stream)@,
{
    write_raw(stream, rmp_write_bool(val).as_slice())
}

/// Reads a boolean.
pub fn read_bool(stream: &mut SlotStream) -> (r: Result<bool, FusionError>)
    ensures
        reads(old(stream)@, final(stream)@, r, decode_bool(old(stream)@.ahead())),
        r is Err ==> final(stream)@ == old(stream)@,
{
    let got = rmp_read_bool(stream.peek_rest());
    take(stream, got, Ghost(decode_bool(stream@.ahead())))
}

/// Writes an unsigned byte in two bytes.
pub fn write_u8(stream: &mut SlotStream, val: u8) -> (r: Result<(), FusionError>)
    ensures
        writes(old(stream)@, final(stream)@, r, fit(encode_u8(val), old(stream)@.room())),
        r is Err ==> final(stream)@ == old(stream)@,
{
    write_raw(stream, rmp_write_u8(val).as_slice())
}

/// Reads an unsigned byte written in two bytes.
pub fn read_u8(stream: &mut SlotStream) -> (r: Result<u8, FusionError>)
    ensures
        reads(old(stream)@, final(stream)@, r, decode_u8(old(stream)@.ahead())),
        r is Err ==> final(stream)@ == old(stream)@,
{
    let got = rmp_read_u8(stream.peek_rest());
    take(stream, got, Ghost(decode_u8(stream@.ahead())))
}

/// Writes a 16-bit unsigned integer in three bytes.
pub fn write_u16(stream: &mut SlotStream, val: u16) -> (r: Result<(), FusionError>)
    ensures
        writes(old(stream)@, final(stream)@, r, fit(encode_u16(val), old(stream)@.room())),
        r is Err ==> final(stream)@ == old(stream)@,
{
    write_raw(stream, rmp_write_u16(val).as_slice())
}

/// Reads a 16-bit unsigned integer written in three bytes.
pub fn read_u16(stream: &mut SlotStream) -> (r: Result<u16, FusionError>)
    ensures
        reads(old(stream)@, final(stream)@, r, decode_u16(old(stream)@.ahead())),
        r is Err ==> final(stream)@ == old(stream)@,
{
    let got = rmp_read_u16(stream.peek_rest());
    take(stream, got, Ghost(decode_u16(stream@.ahead())))
}

/// Writes a 32-bit unsigned integer in five bytes.
pub fn write_u32(stream: &mut SlotStream, val: u32) -> (r: Result<(), FusionError>)
    ensures
        writes(old(stream)@, final(stream)@, r, fit(encode_u32(val), old(stream)@.room())),
        r is Err ==> final(stream)@ == old(stream)@,
{
    write_raw(stream, rmp_write_u32(val).as_slice())
}

/// Reads a 32-bit unsigned integer written in five bytes.
pub fn read_u32(stream: &mut SlotStream) -> (r: Result<u32, FusionError>)
    ensures
        reads(old(stream)@, final(stream)@, r, decode_u32(old(stream)@.ahead())),
        r is Err ==> final(stream)@ == old(stream)@,
{
    let got = rmp_read_u32(stream.peek_rest());
    take(stream, got, Ghost(decode_u32(stream@.ahead())))
}

/// Writes a 64-bit unsigned integer in nine bytes.
pub fn write_u64(stream: &mut SlotStream, val: u64) -> (r: Result<(), FusionError>)
    ensures
        writes(old(stream)@, final(stream)@, r, fit(encode_u64(val), old(stream)@.room())),
        r is Err ==> final(stream)@ == old(stream)@,
{
    write_raw(stream, rmp_write_u64(val).as_slice())
}

/// Reads a 64-bit unsigned integer written in nine bytes.
pub fn read_u64(stream: &mut SlotStream) -> (r: Result<u64, FusionError>)
    ensures
        reads(old(stream)@, final(stream)@, r, decode_u64(old(stream)@.ahead())),
        r is Err ==> final(stream)@ == old(stream)@,
{
    let got = rmp_read_u64(stream.peek_rest());
    take(stream, got, Ghost(decode_u64(stream@.ahead())))
}

/// Writes the prefix of an array of `len` elements.
pub fn write_array_len(stream: &mut SlotStream, len: u32) -> (r: Result<(), FusionError>)
    ensures
        writes(old(stream)@, final(stream)@, r, fit(encode_array_len(len), old(stream)@.room())),
        r is Err ==> final(stream)@ == old(stream)@,
{
    write_raw(stream, rmp_write_array_len(len).as_slice())
}

/// Reads the prefix of an array: the number of its elements.
pub fn read_array_len(stream: &mut SlotStream) -> (r: Result<u32, FusionError>)
    ensures
        reads(old(stream)@, final(stream)@, r, decode_array_len(old(stream)@.ahead())),
        r is Err ==> final(stream)@ == old(stream)@,
{
    let got = rmp_read_array_len(stream.peek_rest());
    take(stream, got, Ghost(decode_array_len(stream@.ahead())))
}

/// Writes the prefix of a binary blob of `len` bytes.
pub fn write_bin_len(stream: &mut SlotStream, len: u32) -> (r: Result<(), FusionError>)
    ensures
        writes(old(stream)@, final(stream)@, r, fit(encode_bin_len(len), old(stream)@.room())),
        r is Err ==> final(stream)@ == old(stream)@,
{
    write_raw(stream, rmp_write_bin_len(len).as_slice())
}

/// Reads the prefix of a binary blob: the number of its bytes.
pub fn read_bin_len(stream: &mut SlotStream) -> (r: Result<u32, FusionError>)
    ensures
        reads(old(stream)@, final(stream)@, r, decode_bin_len(old(stream)@.ahead())),
        r is Err ==> final(stream)@ == old(stream)@,
{
    let got = rmp_read_bin_len(stream.peek_rest());
    take(stream, got, Ghost(decode_bin_len(stream@.ahead())))
}

/// What writing a text as a string gives where `room` bytes are left:
/// `ValueTooLarge` for a text whose length does not fit 32 bits, else the
/// string if it fits the room.
pub open spec fn str_written(text: Seq<u8>, room: int) -> Encoded {
    if text.len() > u32::MAX {
        Err(ErrorView::ValueTooLarge)
    } else {
        fit(encode_str(text), room)
    }
}

/// Writes a text as a string: its length prefix, then its bytes.
pub fn write_str(stream: &mut SlotStream, text: &str) -> (r: Result<(), FusionError>)
    ensures
        writes(old(stream)@, final(stream)@, r, str_written(text.spec_bytes(), old(stream)@.room())),
        r is Err ==> final(stream)@ == old(stream)@,
{
    if text.as_bytes().len() > u32::MAX as usize {
        return Err(FusionError::ValueTooLarge);
    }
    write_raw(stream, rmp_write_str(text).as_slice())
}

/// Reads the prefix of a string: the number of its bytes.
pub fn read_str_len(stream: &mut SlotStream) -> (r: Result<u32, FusionError>)
    ensures
        reads(old(stream)@, final(stream)@, r, decode_str_len(old(stream)@.ahead())),
        r is Err ==> final(stream)@ == old(stream)@,
{
    let got = rmp_read_str_len(stream.peek_rest());
    take(stream, got, Ghost(decode_str_len(stream@.ahead())))
}

// ---------------------------------------------------------------------------
// One write after another
// ---------------------------------------------------------------------------

/// Two writes in a row: the bytes of both, or the first error.
pub open spec fn then(first: Encoded, second: Encoded) -> Encoded {
    match first {
        Err(e) => Err(e),
        Ok(a) => match second {
            Err(e) => Err(e),
            Ok(b) => Ok(a + b),
        },
    }
}

/// The room that is left of `room` once `first` is written.
pub open spec fn after(first: Encoded, room: int) -> int {
    match first {
        Ok(a) => room - a.len(),
        Err(_) => room,
    }
}

/// A write that follows bytes `a` already written from `start`: the two
/// together are one write from `start`.
pub proof fn lemma_writes_then(
    start: SlotView,
    a: Seq<u8>,
    end: SlotView,
    r: Result<(), FusionError>,
    second: Encoded,
)
    requires
        start.wf(),
        a.len() <= start.room(),
        writes(start.put(a), end, r, second),
    ensures
        writes(start, end, r, then(Ok(a), second)),
        r is Ok ==> end.wf(),
{
    lemma_put_shape(start, a);
    let mid = start.put(a);
    match r {
        Ok(()) => {
            let b = second->Ok_0;
            lemma_put_twice(start, a, b);
            lemma_put_shape(start, a + b);
        },
        Err(_) => {
            assert(end.bytes.subrange(0, start.pos) =~= end.bytes.subrange(0, mid.pos).subrange(
                0,
                start.pos,
            ));
            assert(mid.before().subrange(0, start.pos) =~= start.before());
        },
    }
}

// ---------------------------------------------------------------------------
// Arrays
// ---------------------------------------------------------------------------

/// A value with a place in a payload: how it is written, what a reader gets
/// back for it, and the proof that the two agree.
pub trait Wire: Sized {
    /// What reading gives for a value of this type.
    type Read;

    /// The value is one that can stand for what a caller holds.
    spec fn valid(self) -> bool;

    /// The bytes that writing the value puts where `room` bytes are left, or
    /// the error that stops the writing.
    spec fn written(self, room: int) -> Encoded;

    /// What a reader gets for the value.
    spec fn read(self) -> Self::Read;

    /// Reading one value from the front of `b`.
    spec fn decode(b: Seq<u8>) -> Decoded<Self::Read>;

    /// What is written fits the room it was written into.
    proof fn lemma_fits(self, room: int)
        requires
            0 <= room,
        ensures
            self.written(room) matches Ok(b) ==> b.len() <= room,
    ;

    /// What is written is read back as what a reader is to get, whatever
    /// follows it, and the reading takes exactly what was written.
    proof fn lemma_round_trip(self, room: int, rest: Seq<u8>)
        requires
            self.valid(),
        ensures
            self.written(room) matches Ok(b) ==> Self::decode(b + rest) == Ok::<
                (Self::Read, int),
                ErrorView,
            >((self.read(), b.len() as int)),
    ;
}

/// The items of an array one after the other.
pub open spec fn items_written<T: Wire>(items: Seq<T>, room: int) -> Encoded
    decreases items.len(),
{
    if items.len() == 0 {
        Ok(Seq::empty())
    } else {
        let first = items[0].written(room);
        then(first, items_written(items.drop_first(), after(first, room)))
    }
}

/// An array: the count, refused with `ValueTooLarge` if it does not fit 32
/// bits, then the items.
pub open spec fn array_written<T: Wire>(items: Seq<T>, room: int) -> Encoded {
    if items.len() > u32::MAX {
        Err(ErrorView::ValueTooLarge)
    } else {
        let count = fit(encode_array_len(items.len() as u32), room);
        then(count, items_written(items, after(count, room)))
    }
}

/// What a reader gets for each item.
pub open spec fn items_read<T: Wire>(items: Seq<T>) -> Seq<T::Read> {
    items.map_values(|item: T| item.read())
}

/// Reading `count` items one after the other.
pub open spec fn decode_items<T: Wire>(b: Seq<u8>, count: nat) -> Decoded<Seq<T::Read>>
    decreases count,
{
    if count == 0 {
        Ok((Seq::empty(), 0))
    } else {
        match T::decode(b) {
            Err(e) => Err(e),
            Ok((first, n)) => match decode_items::<T>(b.skip(n), (count - 1) as nat) {
                Err(e) => Err(e),
                Ok((others, m)) => Ok((seq![first] + others, n + m)),
            },
        }
    }
}

/// Reading an array: the count, then that many items.
pub open spec fn decode_array<T: Wire>(b: Seq<u8>) -> Decoded<Seq<T::Read>> {
    match decode_array_len(b) {
        Err(e) => Err(e),
        Ok((count, n)) => match decode_items::<T>(b.skip(n), count as nat) {
            Err(e) => Err(e),
            Ok((items, m)) => Ok((items, n + m)),
        },
    }
}

/// Items that are written fit the room they were written into.
pub proof fn lemma_items_fit<T: Wire>(items: Seq<T>, room: int)
    requires
        0 <= room,
    ensures
        items_written(items, room) matches Ok(b) ==> b.len() <= room,
    decreases items.len(),
{
    if items.len() > 0 {
        let first = items[0].written(room);
        items[0].lemma_fits(room);
        if first is Ok {
            lemma_items_fit(items.drop_first(), after(first, room));
        }
    }
}

/// An array that is written fits the room it was written into.
pub proof fn lemma_array_fits<T: Wire>(items: Seq<T>, room: int)
    requires
        0 <= room,
    ensures
        array_written(items, room) matches Ok(b) ==> b.len() <= room,
{
    let count = fit(encode_array_len(items.len() as u32), room);
    if count is Ok {
        lemma_items_fit(items, after(count, room));
    }
}

/// What is written of the items from `i` on: item `i`, then the rest.
pub proof fn lemma_items_unfold<T: Wire>(items: Seq<T>, i: int, room: int)
    requires
        0 <= i < items.len(),
    ensures
        items_written(items.skip(i), room) == then(
            items[i].written(room),
            items_written(items.skip(i + 1), after(items[i].written(room), room)),
        ),
{
    assert(items.skip(i).drop_first() =~= items.skip(i + 1));
}

/// Every item is valid.
pub open spec fn all_valid<T: Wire>(items: Seq<T>) -> bool {
    forall|i: int| 0 <= i < items.len() ==> (#[trigger] items[i]).valid()
}

/// Items are read back as written, whatever follows them.
pub proof fn lemma_items_round_trip<T: Wire>(items: Seq<T>, room: int, rest: Seq<u8>)
    requires
        all_valid(items),
    ensures
        items_written(items, room) matches Ok(b) ==> decode_items::<T>(
            b + rest,
            items.len(),
        ) == Ok::<(Seq<T::Read>, int), ErrorView>((items_read(items), b.len() as int)),
    decreases items.len(),
{
    if items.len() == 0 {
        assert(items_read(items) =~= Seq::<T::Read>::empty());
    } else if items_written(items, room) is Ok {
        let first = items[0].written(room);
        let a = first->Ok_0;
        let tail = items.drop_first();
        let others = items_written(tail, after(first, room))->Ok_0;
        assert(items[0].valid());
        assert forall|i: int| 0 <= i < tail.len() implies (#[trigger] tail[i]).valid() by {
            assert(items[i + 1].valid());
        }
        items[0].lemma_round_trip(room, others + rest);
        lemma_items_round_trip(tail, after(first, room), rest);
        assert((a + others) + rest =~= a + (others + rest));
        assert(((a + others) + rest).skip(a.len() as int) =~= others + rest);
        assert(items_read(items) =~= seq![items[0].read()] + items_read(tail));
    }
}

/// An array is read back as written, whatever follows it.
pub proof fn lemma_array_round_trip<T: Wire>(items: Seq<T>, room: int, rest: Seq<u8>)
    requires
        all_valid(items),
    ensures
        array_written(items, room) matches Ok(b) ==> decode_array::<T>(b + rest) == Ok::<
            (Seq<T::Read>, int),
            ErrorView,
        >((items_read(items), b.len() as int)),
{
    if array_written(items, room) is Ok {
        let head = encode_array_len(items.len() as u32);
        let count = fit(head, room);
        let body = items_written(items, after(count, room))->Ok_0;
        lemma_array_len_round_trip(items.len() as u32, body + rest);
        lemma_items_round_trip(items, after(count, room), rest);
        assert((head + body) + rest =~= head + (body + rest));
        assert(((head + body) + rest).skip(head.len() as int) =~= body + rest);
    }
}

/// The outcome of reading items of which `done` were read in `taken` bytes
/// and `rest` is the outcome for the others.
pub open spec fn decoded_after<R>(done: Seq<R>, taken: int, rest: Decoded<Seq<R>>) -> Decoded<
    Seq<R>,
> {
    match rest {
        Err(e) => Err(e),
        Ok((others, n)) => Ok((done + others, taken + n)),
    }
}

/// Reading `left` items from `taken` on: the next item, then the others.
pub proof fn lemma_decode_items_step<T: Wire>(
    b: Seq<u8>,
    taken: int,
    left: nat,
    done: Seq<T::Read>,
)
    requires
        left > 0,
        0 <= taken <= b.len(),
    ensures
        match T::decode(b.skip(taken)) {
            Err(e) => decoded_after(done, taken, decode_items::<T>(b.skip(taken), left)) == Err::<
                (Seq<T::Read>, int),
                ErrorView,
            >(e),
            Ok((item, n)) => 0 <= n && taken + n <= b.len() ==> decoded_after(
                done,
                taken,
                decode_items::<T>(b.skip(taken), left),
            ) == decoded_after(
                done.push(item),
                taken + n,
                decode_items::<T>(b.skip(taken + n), (left - 1) as nat),
            ),
        },
{
    match T::decode(b.skip(taken)) {
        Err(_) => {},
        Ok((item, n)) => {
            if 0 <= n && taken + n <= b.len() {
                assert(b.skip(taken).skip(n) =~= b.skip(taken + n));
                match decode_items::<T>(b.skip(taken + n), (left - 1) as nat) {
                    Err(_) => {},
                    Ok((others, _)) => {
                        assert(done + (seq![item] + others) =~= done.push(item) + others);
                    },
                }
            }
        },
    }
}

// ---------------------------------------------------------------------------
// Writing and reading arrays
// ---------------------------------------------------------------------------

/// A type whose values can be written into a slot.
pub trait Encode {
    /// What the contracts see of a value.
    type Form: Wire;

    spec fn form(&self) -> Self::Form;

    /// Writes the value at the cursor.
    fn encode(&self, stream: &mut SlotStream) -> (r: Result<(), FusionError>)
        ensures
            writes(old(stream)@, final(stream)@, r, self.form().written(old(stream)@.room())),
    ;
}

/// A type whose values can be read from a slot.
pub trait Decode: Sized {
    /// What the contracts see of the values that are written.
    type Form: Wire;

    /// What the contracts see of a value that was read.
    spec fn got(&self) -> <Self::Form as Wire>::Read;

    /// Reads one value at the cursor.
    fn decode(stream: &mut SlotStream) -> (r: Result<Self, FusionError>)
        ensures
            reads(
                old(stream)@,
                final(stream)@,
                match r {
                    Ok(value) => Ok::<<Self::Form as Wire>::Read, FusionError>(value.got()),
                    Err(e) => Err(e),
                },
                <Self::Form as Wire>::decode(old(stream)@.ahead()),
            ),
    ;
}

/// What the contracts see of each value.
pub open spec fn forms<T: Encode>(items: Seq<T>) -> Seq<T::Form> {
    items.map_values(|item: T| item.form())
}

/// A result with what the contracts see of each value read.
pub open spec fn got_all<T: Decode>(r: Result<Vec<T>, FusionError>) -> Result<
    Seq<<T::Form as Wire>::Read>,
    FusionError,
> {
    match r {
        Ok(values) => Ok(values@.map_values(|value: T| value.got())),
        Err(e) => Err(e),
    }
}

/// Writes an array: the count, then each item.
pub fn write_array<T: Encode>(stream: &mut SlotStream, items: &[T]) -> (r: Result<
    (),
    FusionError,
>)
    ensures
        writes(old(stream)@, final(stream)@, r, array_written(forms(items@), old(stream)@.room())),
{
    let ghost v0 = stream@;
    let ghost views = forms(items@);
    let room = stream.remaining();
    let count = items.len();
    if count > u32::MAX as usize {
        return Err(FusionError::ValueTooLarge);
    }
    write_array_len(stream, count as u32)?;
    let ghost acc = encode_array_len(count as u32);
    proof {
        assert(views.skip(0) =~= views);
    }
    let mut i: usize = 0;
    while i < count
        invariant
            i <= count,
            count == items@.len(),
            views == forms(items@),
            v0 == old(stream)@,
            v0.wf(),
            room == v0.room(),
            acc.len() <= room,
            stream@ == v0.put(acc),
            array_written(views, room as int) == then(
                Ok(acc),
                items_written(views.skip(i as int), room - acc.len()),
            ),
        decreases count - i,
    {
        let r = items[i].encode(stream);
        proof {
            lemma_items_unfold(views, i as int, room - acc.len());
            lemma_writes_then(v0, acc, stream@, r, views[i as int].written(room - acc.len()));
        }
        r?;
        proof {
            let item = views[i as int].written(room - acc.len())->Ok_0;
            match items_written(views.skip(i + 1), room - acc.len() - item.len()) {
                Ok(others) => {
                    assert(acc + (item + others) =~= (acc + item) + others);
                },
                Err(_) => {},
            }
            acc = acc + item;
        }
        i = i + 1;
    }
    proof {
        assert(acc + Seq::<u8>::empty() =~= acc);
    }
    Ok(())
}

/// Reads an array: the count, then that many items.
pub fn read_array<T: Decode>(stream: &mut SlotStream) -> (r: Result<Vec<T>, FusionError>)
    ensures
        reads(
            old(stream)@,
            final(stream)@,
            got_all(r),
            decode_array::<T::Form>(old(stream)@.ahead()),
        ),
{
    let ghost v0 = stream@;
    let ghost b = stream@.ahead();
    let _ = stream.position();
    let count = read_array_len(stream)?;
    let ghost n = stream@.pos - v0.pos;
    let ghost items = b.skip(n);
    assert(stream@.ahead() == items);
    let mut values: Vec<T> = Vec::new();
    let ghost done = Seq::<<T::Form as Wire>::Read>::empty();
    let ghost taken = 0int;
    proof {
        assert(items.skip(0) =~= items);
        match decode_items::<T::Form>(items, count as nat) {
            Ok((all, _)) => {
                assert(done + all =~= all);
            },
            Err(_) => {},
        }
        assert(values@.map_values(|value: T| value.got()) =~= done);
    }
    let mut i: u32 = 0;
    while i < count
        invariant
            i <= count,
            v0 == old(stream)@,
            v0.wf(),
            decode_array_len(v0.ahead()) == Ok::<(u32, int), ErrorView>((count, n)),
            0 <= n,
            0 <= taken,
            n + taken <= v0.room(),
            items == v0.ahead().skip(n),
            stream@ == v0.at(v0.pos + n + taken),
            done == values@.map_values(|value: T| value.got()),
            decode_items::<T::Form>(items, count as nat) == decoded_after(
                done,
                taken,
                decode_items::<T::Form>(items.skip(taken), (count - i) as nat),
            ),
        decreases count - i,
    {
        proof {
            lemma_decode_items_step::<T::Form>(items, taken, (count - i) as nat, done);
            assert(stream@.ahead() =~= items.skip(taken));
        }
        let ghost before = stream@;
        let value = T::decode(stream)?;
        proof {
            taken = taken + (stream@.pos - before.pos);
            done = done.push(value.got());
            assert(values@.push(value).map_values(|value: T| value.got()) =~= done);
        }
        values.push(value);
        i = i + 1;
    }
    proof {
        assert(done + Seq::<<T::Form as Wire>::Read>::empty() =~= done);
    }
    Ok(values)
}

// ---------------------------------------------------------------------------
// Tags and texts
// ---------------------------------------------------------------------------

/// Reading the byte of a tag of the field `field`: a small number in one
/// byte. A byte from 128 on is out of every tag's range and is refused like
/// any other byte that stands for nothing: with `Deserialize`, the field's
/// name and the byte.
pub open spec fn decode_tag_byte(b: Seq<u8>, field: Seq<char>) -> Decoded<u8> {
    match decode_pfix(b) {
        Err(ErrorView::TypeMismatch(byte)) => Err(ErrorView::Deserialize(field, byte as u64)),
        other => other,
    }
}

/// Reads the byte of a tag of the field `field`.
pub fn read_tag(stream: &mut SlotStream, field: &str) -> (r: Result<u8, FusionError>)
    ensures
        reads(old(stream)@, final(stream)@, r, decode_tag_byte(old(stream)@.ahead(), field@)),
        r is Err ==> final(stream)@ == old(stream)@,
{
    match read_pfix(stream) {
        Ok(tag) => Ok(tag),
        Err(FusionError::TypeMismatch(byte)) => Err(
            FusionError::Deserialize(field.to_owned(), byte as u64),
        ),
        Err(e) => Err(e),
    }
}

/// What turning a byte into a tag gives: the tag, or `Deserialize` with the
/// field's name and the byte.
pub open spec fn tag_or_error<T>(found: Option<T>, field: Seq<char>, tag: u8) -> Result<
    T,
    ErrorView,
> {
    match found {
        Some(t) => Ok(t),
        None => Err(ErrorView::Deserialize(field, tag as u64)),
    }
}

/// How the result of turning a byte into a tag relates to the model.
pub open spec fn tag_result<T>(r: Result<T, FusionError>, model: Result<T, ErrorView>) -> bool {
    match r {
        Ok(t) => model == Ok::<T, ErrorView>(t),
        Err(e) => model == Err::<T, ErrorView>(e@),
    }
}

/// Reading a text: the length prefix, then as many bytes as it announces,
/// which must be ahead and must be UTF-8. The count is that of the prefix
/// alone: the cursor stays at the start of the text.
pub open spec fn decode_text(b: Seq<u8>) -> Decoded<(Seq<char>, u32)> {
    match decode_str_len(b) {
        Err(e) => Err(e),
        Ok((len, n)) => if b.len() < n + len {
            Err(ErrorView::SlotOverflow)
        } else if !valid_utf8(b.subrange(n, n + len)) {
            Err(ErrorView::InvalidUtf8)
        } else {
            Ok(((decode_utf8(b.subrange(n, n + len)), len), n))
        },
    }
}

/// The result of reading a text, the text seen as its characters.
pub open spec fn text_seen(r: Result<(&str, u32), FusionError>) -> Result<
    (Seq<char>, u32),
    FusionError,
> {
    match r {
        Ok((text, len)) => Ok((text@, len)),
        Err(e) => Err(e),
    }
}

/// Reading a text for its characters alone.
pub open spec fn decode_text_owned(b: Seq<u8>) -> Decoded<Seq<char>> {
    match decode_text(b) {
        Ok(((text, _), n)) => Ok((text, n)),
        Err(e) => Err(e),
    }
}

/// Reading a text and all of its bytes: the count covers prefix and text.
pub open spec fn decode_string(b: Seq<u8>) -> Decoded<Seq<char>> {
    match decode_text(b) {
        Ok(((text, len), n)) => Ok((text, n + len)),
        Err(e) => Err(e),
    }
}

/// A text is read back as written, whatever follows it.
pub proof fn lemma_text_round_trip(text: Seq<char>, rest: Seq<u8>)
    requires
        encode_utf8(text).len() <= u32::MAX,
    ensures
        decode_text(encode_str(encode_utf8(text)) + rest) == Ok::<
            ((Seq<char>, u32), int),
            ErrorView,
        >(
            (
                (text, encode_utf8(text).len() as u32),
                encode_str_len(encode_utf8(text).len() as u32).len() as int,
            ),
        ),
{
    let bytes = encode_utf8(text);
    let len = bytes.len() as u32;
    let b = encode_str(bytes) + rest;
    let n = encode_str_len(len).len() as int;
    lemma_str_len_round_trip(len, bytes + rest);
    assert(b =~= encode_str_len(len) + (bytes + rest));
    assert(b.subrange(n, n + len) =~= bytes);
    encode_utf8_valid_utf8(text);
    encode_utf8_decode_utf8(text);
}

/// Reads a text and hands it out as a view into the slot. The cursor is
/// left at the start of the text: moving it on is the caller's part.
pub fn read_text<'a>(stream: &'a mut SlotStream) -> (r: Result<(&'a str, u32), FusionError>)
    ensures
        reads(old(stream)@, final(stream)@, text_seen(r), decode_text(old(stream)@.ahead())),
{
    let ghost b = stream@.ahead();
    let _ = stream.position();
    let len = read_str_len(stream)?;
    let ghost n = stream@.pos - old(stream)@.pos;
    let buf = stream.look_ahead(len as usize)?;
    assert(buf@ == b.subrange(n, n + len));
    match str_from_utf8(buf) {
        Some(text) => {
            proof {
                encode_utf8_decode_utf8(text@);
            }
            Ok((text, len))
        },
        None => Err(FusionError::InvalidUtf8),
    }
}

/// Reads a text and moves the cursor behind it.
pub fn read_string(stream: &mut SlotStream) -> (r: Result<String, FusionError>)
    ensures
        reads(old(stream)@, final(stream)@, viewed(r), decode_string(old(stream)@.ahead())),
{
    let _ = stream.position();
    let (owned, len) = match read_text(stream) {
        Ok((text, len)) => (text.to_owned(), len),
        Err(e) => {
            return Err(e);
        },
    };
    let _ = stream.position();
    stream.advance(len as usize);
    Ok(owned)
}

} // verus!
