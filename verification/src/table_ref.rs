//! Table references and their place in a payload: one or two names, each a
//! blob that ends in a zero byte.
//!
//! The names are written as blobs and not as strings so that a reader can
//! hand the bytes, as they lie in the slot, to code that expects text ending
//! in a zero byte.

use crate::error::{ErrorView, FusionError};
use crate::ipc::SlotStream;
use crate::msgpack::{
    decode_array_len, decode_bin_len, encode_array_len, encode_bin_len, lemma_array_len_round_trip, lemma_bin_len_round_trip, str_from_utf8, Decoded,
};
use crate::wire::{
    after, fit, lemma_writes_then, read_array_len, read_bin_len, reads, then, viewed,
    write_array_len, write_bin_len, write_pfix, write_raw, writes, Decode, Encode, Encoded,
    Wire,
};
use vstd::prelude::*;
use vstd::slice::slice_subrange;
use vstd::string::StringSliceAdditionalSpecFns;
use vstd::utf8::{
    decode_utf8, encode_utf8, encode_utf8_decode_utf8, encode_utf8_valid_utf8, valid_utf8,
};

verus! {

// ---------------------------------------------------------------------------
// Text that ends in a zero byte
// ---------------------------------------------------------------------------

/// A text as a blob: the length of text and zero byte together, the text,
/// the zero byte.
pub open spec fn encode_c_str(text: Seq<u8>) -> Seq<u8> {
    encode_bin_len((text.len() + 1) as u32) + text + seq![0u8]
}

/// What writing a text as such a blob gives where `room` bytes are left:
/// `ValueTooLarge` if text and zero byte together do not fit 32 bits, else
/// the blob if it fits the room.
pub open spec fn c_str_written(text: Seq<u8>, room: int) -> Encoded {
    if text.len() + 1 > u32::MAX {
        Err(ErrorView::ValueTooLarge)
    } else {
        fit(encode_c_str(text), room)
    }
}

/// Reading such a blob: the length, then as many bytes as it announces,
/// which must be ahead, must end in a zero byte, and must be UTF-8 before
/// it. The count covers the whole blob.
pub open spec fn decode_c_str(b: Seq<u8>) -> Decoded<Seq<char>> {
    match decode_bin_len(b) {
        Err(e) => Err(e),
        Ok((len, n)) => if b.len() < n + len {
            Err(ErrorView::SlotOverflow)
        } else if len == 0 || b[n + len - 1] != 0 {
            Err(ErrorView::MissingTerminator)
        } else if !valid_utf8(b.subrange(n, n + len - 1)) {
            Err(ErrorView::InvalidUtf8)
        } else {
            Ok((decode_utf8(b.subrange(n, n + len - 1)), n + len))
        },
    }
}

/// A text that ends in a zero byte is read back as written, whatever follows
/// it.
pub proof fn lemma_c_str_round_trip(text: Seq<char>, rest: Seq<u8>)
    requires
        encode_utf8(text).len() + 1 <= u32::MAX,
    ensures
        decode_c_str(encode_c_str(encode_utf8(text)) + rest) == Ok::<(Seq<char>, int), ErrorView>(
            (text, encode_c_str(encode_utf8(text)).len() as int),
        ),
{
    let bytes = encode_utf8(text);
    let len = (bytes.len() + 1) as u32;
    let head = encode_bin_len(len);
    let n = head.len() as int;
    let b = encode_c_str(bytes) + rest;
    lemma_bin_len_round_trip(len, bytes + seq![0u8] + rest);
    assert(b =~= head + (bytes + seq![0u8] + rest));
    assert(b.subrange(n, n + len - 1) =~= bytes);
    assert(b[n + len - 1] == 0);
    encode_utf8_valid_utf8(text);
    encode_utf8_decode_utf8(text);
}

/// Writes a text as a blob that ends in a zero byte.
pub fn write_c_str(stream: &mut SlotStream, text: &str) -> (r: Result<(), FusionError>)
    ensures
        writes(old(stream)@, final(stream)@, r, c_str_written(text.spec_bytes(), old(stream)@.room())),
{
    let bytes = text.as_bytes();
    let ghost v0 = stream@;
    let room = stream.remaining();
    if bytes.len() >= u32::MAX as usize {
        return Err(FusionError::ValueTooLarge);
    }
    let len = (bytes.len() + 1) as u32;
    let ghost head = encode_bin_len(len);
    let ghost zero = seq![0u8];
    write_bin_len(stream, len)?;
    let r = write_raw(stream, bytes);
    proof {
        lemma_writes_then(v0, head, stream@, r, fit(bytes@, room - head.len()));
    }
    r?;
    let r = write_pfix(stream, 0);
    proof {
        lemma_writes_then(v0, head + bytes@, stream@, r, fit(zero, room - (head + bytes@).len()));
    }
    r?;
    Ok(())
}

/// Reads a text written as a blob that ends in a zero byte, and moves the
/// cursor behind the blob.
pub fn read_c_str(stream: &mut SlotStream) -> (r: Result<String, FusionError>)
    ensures
        reads(old(stream)@, final(stream)@, viewed(r), decode_c_str(old(stream)@.ahead())),
{
    let ghost b = stream@.ahead();
    let _ = stream.position();
    let len = read_bin_len(stream)?;
    let ghost n = stream@.pos - old(stream)@.pos;
    let size = len as usize;
    let buf = stream.look_ahead(size)?;
    assert(buf@ == b.subrange(n, n + len));
    if size == 0 || buf[size - 1] != 0 {
        return Err(FusionError::MissingTerminator);
    }
    let body = slice_subrange(buf, 0, size - 1);
    assert(body@ == b.subrange(n, n + len - 1));
    let owned = match str_from_utf8(body) {
        Some(text) => {
            proof {
                encode_utf8_decode_utf8(text@);
            }
            text.to_owned()
        },
        None => {
            return Err(FusionError::InvalidUtf8);
        },
    };
    stream.advance(size);
    Ok(owned)
}

// ---------------------------------------------------------------------------
// Table references
// ---------------------------------------------------------------------------

/// The name of a table: bare, with its schema, or with schema and catalog.
#[derive(Debug, PartialEq, Eq)]
pub enum TableReference {
    Bare { table: String },
    Partial { schema: String, table: String },
    Full { catalog: String, schema: String, table: String },
}

/// A [`TableReference`] as the contracts see it: the same cases, the names
/// as sequences of characters.
pub enum TableRefView {
    Bare { table: Seq<char> },
    Partial { schema: Seq<char>, table: Seq<char> },
    Full { catalog: Seq<char>, schema: Seq<char>, table: Seq<char> },
}

impl View for TableReference {
    type V = TableRefView;

    open spec fn view(&self) -> TableRefView {
        match self {
            TableReference::Bare { table } => TableRefView::Bare { table: table@ },
            TableReference::Partial { schema, table } => TableRefView::Partial {
                schema: schema@,
                table: table@,
            },
            TableReference::Full { catalog, schema, table } => TableRefView::Full {
                catalog: catalog@,
                schema: schema@,
                table: table@,
            },
        }
    }
}

impl TableReference {
    /// A table named without a schema.
    pub fn bare(table: &str) -> (r: TableReference)
        ensures
            r@ == (TableRefView::Bare { table: table@ }),
    {
        TableReference::Bare { table: table.to_owned() }
    }

    /// A table named with its schema.
    pub fn partial(schema: &str, table: &str) -> (r: TableReference)
        ensures
            r@ == (TableRefView::Partial { schema: schema@, table: table@ }),
    {
        TableReference::Partial { schema: schema.to_owned(), table: table.to_owned() }
    }

    /// A table named with its catalog and schema.
    pub fn full(catalog: &str, schema: &str, table: &str) -> (r: TableReference)
        ensures
            r@ == (TableRefView::Full { catalog: catalog@, schema: schema@, table: table@ }),
    {
        TableReference::Full {
            catalog: catalog.to_owned(),
            schema: schema.to_owned(),
            table: table.to_owned(),
        }
    }
}

impl TableRefView {
    /// The number of names that are written for the reference: the catalog
    /// is not.
    pub open spec fn arity(self) -> u32 {
        match self {
            TableRefView::Bare { .. } => 1,
            _ => 2,
        }
    }

    /// The table's name.
    pub open spec fn table(self) -> Seq<char> {
        match self {
            TableRefView::Bare { table } => table,
            TableRefView::Partial { table, .. } => table,
            TableRefView::Full { table, .. } => table,
        }
    }

    /// The schema's name, empty for a bare reference.
    pub open spec fn schema(self) -> Seq<char> {
        match self {
            TableRefView::Bare { .. } => Seq::empty(),
            TableRefView::Partial { schema, .. } => schema,
            TableRefView::Full { schema, .. } => schema,
        }
    }
}

impl Wire for TableRefView {
    type Read = TableRefView;

    open spec fn valid(self) -> bool {
        true
    }

    /// An array of one name, the table's, or of two, schema and table.
    open spec fn written(self, room: int) -> Encoded {
        let count = fit(encode_array_len(self.arity()), room);
        if self.arity() == 1 {
            then(count, c_str_written(encode_utf8(self.table()), after(count, room)))
        } else {
            let schema = then(count, c_str_written(encode_utf8(self.schema()), after(count, room)));
            then(schema, c_str_written(encode_utf8(self.table()), after(schema, room)))
        }
    }

    /// The reference without its catalog.
    open spec fn read(self) -> TableRefView {
        match self {
            TableRefView::Full { schema, table, .. } => TableRefView::Partial { schema, table },
            other => other,
        }
    }

    /// An array of one name is a bare reference, one of two a reference with
    /// its schema; any other count is refused with `Deserialize`, the name
    /// `table reference` and the count.
    open spec fn decode(b: Seq<u8>) -> Decoded<TableRefView> {
        match decode_array_len(b) {
            Err(e) => Err(e),
            Ok((count, n)) => if count == 1 {
                match decode_c_str(b.skip(n)) {
                    Err(e) => Err(e),
                    Ok((table, m)) => Ok((TableRefView::Bare { table }, n + m)),
                }
            } else if count == 2 {
                match decode_c_str(b.skip(n)) {
                    Err(e) => Err(e),
                    Ok((schema, m)) => match decode_c_str(b.skip(n + m)) {
                        Err(e) => Err(e),
                        Ok((table, k)) => Ok((TableRefView::Partial { schema, table }, n + m + k)),
                    },
                }
            } else {
                Err(ErrorView::Deserialize("table reference"@, count as u64))
            },
        }
    }

    proof fn lemma_fits(self, room: int) {
    }

    proof fn lemma_round_trip(self, room: int, rest: Seq<u8>) {
        if self.written(room) is Ok {
            if self.arity() == 1 {
                lemma_one_name_round_trip(self.table(), rest);
            } else {
                lemma_two_names_round_trip(self.schema(), self.table(), rest);
            }
        }
    }
}

/// An array of one name is read back as a bare reference.
proof fn lemma_one_name_round_trip(table: Seq<char>, rest: Seq<u8>)
    requires
        encode_utf8(table).len() + 1 <= u32::MAX,
    ensures
        TableRefView::decode(encode_array_len(1) + encode_c_str(encode_utf8(table)) + rest) == Ok::<
            (TableRefView, int),
            ErrorView,
        >((TableRefView::Bare { table }, 1 + encode_c_str(encode_utf8(table)).len() as int)),
{
    let name = encode_c_str(encode_utf8(table));
    let b = encode_array_len(1) + name + rest;
    assert(decode_array_len(b) == Ok::<(u32, int), ErrorView>((1u32, 1int))) by {
        lemma_array_len_round_trip(1, name + rest);
        assert(b =~= encode_array_len(1) + (name + rest));
    }
    assert(decode_c_str(b.skip(1)) == Ok::<(Seq<char>, int), ErrorView>((table, name.len() as int)))
        by {
        assert(b.skip(1) =~= name + rest);
        lemma_c_str_round_trip(table, rest);
    }
}

/// An array of two names is read back as a reference with its schema.
proof fn lemma_two_names_round_trip(schema: Seq<char>, table: Seq<char>, rest: Seq<u8>)
    requires
        encode_utf8(schema).len() + 1 <= u32::MAX,
        encode_utf8(table).len() + 1 <= u32::MAX,
    ensures
        TableRefView::decode(
            encode_array_len(2) + encode_c_str(encode_utf8(schema)) + encode_c_str(
                encode_utf8(table),
            ) + rest,
        ) == Ok::<(TableRefView, int), ErrorView>(
            (
                TableRefView::Partial { schema, table },
                1 + encode_c_str(encode_utf8(schema)).len() as int + encode_c_str(
                    encode_utf8(table),
                ).len() as int,
            ),
        ),
{
    let first = encode_c_str(encode_utf8(schema));
    let second = encode_c_str(encode_utf8(table));
    let b = encode_array_len(2) + first + second + rest;
    assert(decode_array_len(b) == Ok::<(u32, int), ErrorView>((2u32, 1int))) by {
        lemma_array_len_round_trip(2, first + second + rest);
        assert(b =~= encode_array_len(2) + (first + second + rest));
    }
    assert(decode_c_str(b.skip(1)) == Ok::<(Seq<char>, int), ErrorView>(
        (schema, first.len() as int),
    )) by {
        assert(b.skip(1) =~= first + (second + rest));
        lemma_c_str_round_trip(schema, second + rest);
    }
    assert(decode_c_str(b.skip(1 + first.len() as int)) == Ok::<(Seq<char>, int), ErrorView>(
        (table, second.len() as int),
    )) by {
        assert(b.skip(1 + first.len() as int) =~= second + rest);
        lemma_c_str_round_trip(table, rest);
    }
}

/// Writes a table reference as an array of its names, each ending in a zero
/// byte: the table's name alone for a bare reference, else schema and table.
pub fn write_table_ref(stream: &mut SlotStream, table: &TableReference) -> (r: Result<
    (),
    FusionError,
>)
    ensures
        writes(old(stream)@, final(stream)@, r, table@.written(old(stream)@.room())),
{
    let ghost v0 = stream@;
    let room = stream.remaining();
    match table {
        TableReference::Bare { table } => {
            write_array_len(stream, 1)?;
            let r = write_c_str(stream, table.as_str());
            proof {
                lemma_writes_then(
                    v0,
                    encode_array_len(1),
                    stream@,
                    r,
                    c_str_written(encode_utf8(table@), room - 1),
                );
            }
            r
        },
        TableReference::Full { schema, table, .. } | TableReference::Partial { schema, table } => {
            write_array_len(stream, 2)?;
            let r = write_c_str(stream, schema.as_str());
            proof {
                lemma_writes_then(
                    v0,
                    encode_array_len(2),
                    stream@,
                    r,
                    c_str_written(encode_utf8(schema@), room - 1),
                );
            }
            r?;
            let ghost first = encode_array_len(2) + encode_c_str(encode_utf8(schema@));
            let r = write_c_str(stream, table.as_str());
            proof {
                lemma_writes_then(
                    v0,
                    first,
                    stream@,
                    r,
                    c_str_written(encode_utf8(table@), room - first.len()),
                );
            }
            r
        },
    }
}

/// Reads a table reference: a bare one from an array of one name, one with
/// its schema from an array of two.
pub fn read_table_ref(stream: &mut SlotStream) -> (r: Result<TableReference, FusionError>)
    ensures
        reads(old(stream)@, final(stream)@, viewed(r), TableRefView::decode(old(stream)@.ahead())),
{
    let ghost b = stream@.ahead();
    let _ = stream.position();
    let count = read_array_len(stream)?;
    let ghost n = stream@.pos - old(stream)@.pos;
    assert(stream@.ahead() == b.skip(n));
    if count == 1 {
        let table = read_c_str(stream)?;
        Ok(TableReference::Bare { table })
    } else if count == 2 {
        let schema = read_c_str(stream)?;
        let ghost m = stream@.pos - old(stream)@.pos - n;
        assert(stream@.ahead() == b.skip(n + m));
        let table = read_c_str(stream)?;
        Ok(TableReference::Partial { schema, table })
    } else {
        Err(FusionError::Deserialize("table reference".to_owned(), count as u64))
    }
}

impl Encode for TableReference {
    type Form = TableRefView;

    open spec fn form(&self) -> TableRefView {
        self@
    }

    fn encode(&self, stream: &mut SlotStream) -> (r: Result<(), FusionError>) {
        write_table_ref(stream, self)
    }
}

impl Encode for &TableReference {
    type Form = TableRefView;

    open spec fn form(&self) -> TableRefView {
        self@
    }

    fn encode(&self, stream: &mut SlotStream) -> (r: Result<(), FusionError>) {
        write_table_ref(stream, *self)
    }
}

impl Decode for TableReference {
    type Form = TableRefView;

    open spec fn got(&self) -> TableRefView {
        self@
    }

    fn decode(stream: &mut SlotStream) -> (r: Result<TableReference, FusionError>) {
        read_table_ref(stream)
    }
}

} // verus!
