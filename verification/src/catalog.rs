//! Tables as the catalog describes them, and the description that is sent to
//! the worker: for each table its identifier and its columns, a column being
//! a name, a type and whether it takes nulls.

use crate::data_type::{lemma_type_tag_round_trip, EncodedType};
use crate::error::{ErrorView, FusionError};
use crate::ipc::SlotStream;
use crate::msgpack::{
    decode_array_len, decode_bool, decode_u32, decode_u8, encode_array_len, encode_bool,
    encode_str, encode_u32, encode_u8, lemma_array_len_round_trip, lemma_bool_round_trip,
    lemma_u32_round_trip, lemma_u8_round_trip, Decoded,
};
use crate::wire::{
    decode_text, lemma_text_round_trip, read_string, tag_or_error, after, array_written, decode_array, fit, forms, items_read,
    lemma_array_fits, lemma_array_round_trip, lemma_writes_then, read_array, read_array_len,
    read_bool, read_u32, read_u8, reads, str_written, then, viewed, write_array,
    write_array_len, write_bool, write_str, write_u32, write_u8, writes, Decode, Encode,
    Encoded, Wire,
};
use vstd::prelude::*;
use vstd::utf8::encode_utf8;

verus! {

/// A column as the catalog holds it.
#[derive(Debug, PartialEq, Eq)]
pub struct Attribute {
    pub name: String,
    /// The catalog identifier of the column's type.
    pub type_oid: u32,
    pub not_null: bool,
    /// The column was dropped: it is still in the catalog but no longer part
    /// of the table.
    pub is_dropped: bool,
}

/// A table as the catalog holds it.
#[derive(Debug, PartialEq, Eq)]
pub struct Relation {
    pub oid: u32,
    pub attributes: Vec<Attribute>,
}

/// A column as it is described to the worker.
#[derive(Debug, PartialEq, Eq)]
pub struct Column {
    pub name: String,
    pub etype: EncodedType,
    pub is_nullable: bool,
}

/// A table as it is described to the worker.
#[derive(Debug, PartialEq, Eq)]
pub struct Table {
    pub id: u32,
    pub columns: Vec<Column>,
}

/// An [`Attribute`] as the contracts see it.
pub struct AttributeView {
    pub name: Seq<char>,
    pub type_oid: u32,
    pub not_null: bool,
    pub is_dropped: bool,
}

/// A [`Relation`] as the contracts see it.
pub struct RelationView {
    pub oid: u32,
    pub attributes: Seq<AttributeView>,
}

/// A [`Column`] as the contracts see it.
pub struct ColumnView {
    pub name: Seq<char>,
    pub etype: EncodedType,
    pub is_nullable: bool,
}

/// A [`Table`] as the contracts see it.
pub struct TableView {
    pub id: u32,
    pub columns: Seq<ColumnView>,
}

impl View for Attribute {
    type V = AttributeView;

    open spec fn view(&self) -> AttributeView {
        AttributeView {
            name: self.name@,
            type_oid: self.type_oid,
            not_null: self.not_null,
            is_dropped: self.is_dropped,
        }
    }
}

impl View for Relation {
    type V = RelationView;

    open spec fn view(&self) -> RelationView {
        RelationView {
            oid: self.oid,
            attributes: self.attributes@.map_values(|a: Attribute| a@),
        }
    }
}

impl View for Column {
    type V = ColumnView;

    open spec fn view(&self) -> ColumnView {
        ColumnView { name: self.name@, etype: self.etype, is_nullable: self.is_nullable }
    }
}

impl View for Table {
    type V = TableView;

    open spec fn view(&self) -> TableView {
        TableView { id: self.id, columns: self.columns@.map_values(|c: Column| c@) }
    }
}

/// The columns that are part of the table: those that were not dropped, in
/// their order.
pub open spec fn live(attributes: Seq<AttributeView>) -> Seq<AttributeView>
    decreases attributes.len(),
{
    if attributes.len() == 0 {
        Seq::empty()
    } else {
        let before = live(attributes.drop_last());
        if attributes.last().is_dropped {
            before
        } else {
            before.push(attributes.last())
        }
    }
}

// ---------------------------------------------------------------------------
// Columns
// ---------------------------------------------------------------------------

impl AttributeView {
    /// The bytes of a column whose type is written as `etype`: an array of
    /// three, the name as a string, the type in two bytes, the flag that is
    /// true where the column takes nulls.
    pub open spec fn written_as(self, etype: EncodedType, room: int) -> Encoded {
        let count = fit(encode_array_len(3), room);
        let name = then(count, str_written(encode_utf8(self.name), after(count, room)));
        let kind = then(name, fit(encode_u8(etype.tag()), after(name, room)));
        then(kind, fit(encode_bool(!self.not_null), after(kind, room)))
    }
}

impl Wire for AttributeView {
    type Read = ColumnView;

    open spec fn valid(self) -> bool {
        true
    }

    /// A column whose type has no encoded form is refused with
    /// `UnsupportedType` before anything is written.
    open spec fn written(self, room: int) -> Encoded {
        match EncodedType::from_type_oid(self.type_oid) {
            None => Err(ErrorView::UnsupportedType(self.type_oid)),
            Some(etype) => self.written_as(etype, room),
        }
    }

    open spec fn read(self) -> ColumnView {
        ColumnView {
            name: self.name,
            etype: EncodedType::from_type_oid(self.type_oid)->Some_0,
            is_nullable: !self.not_null,
        }
    }

    /// An array of another size than three is refused with `Deserialize`,
    /// the name `column` and the size; a byte that stands for no type with
    /// `Deserialize`, the name `encoded type` and the byte.
    open spec fn decode(b: Seq<u8>) -> Decoded<ColumnView> {
        match decode_array_len(b) {
            Err(e) => Err(e),
            Ok((count, n)) => if count != 3 {
                Err(ErrorView::Deserialize("column"@, count as u64))
            } else {
                match decode_text(b.skip(n)) {
                    Err(e) => Err(e),
                    Ok(((name, len), m)) => match decode_u8(b.skip(n + m + len)) {
                        Err(e) => Err(e),
                        Ok((tag, _)) => match tag_or_error(
                            EncodedType::from_tag(tag),
                            "encoded type"@,
                            tag,
                        ) {
                            Err(e) => Err(e),
                            Ok(etype) => match decode_bool(b.skip(n + m + len + 2)) {
                                Err(e) => Err(e),
                                Ok((is_nullable, _)) => Ok(
                                    (ColumnView { name, etype, is_nullable }, n + m + len + 3),
                                ),
                            },
                        },
                    },
                }
            },
        }
    }

    proof fn lemma_fits(self, room: int) {
    }

    proof fn lemma_round_trip(self, room: int, rest: Seq<u8>) {
        if self.written(room) is Ok {
            let etype = EncodedType::from_type_oid(self.type_oid)->Some_0;
            lemma_column_round_trip(self.name, etype, !self.not_null, rest);
        }
    }
}

/// A column is read back as written, whatever follows it.
proof fn lemma_column_round_trip(
    name: Seq<char>,
    etype: EncodedType,
    is_nullable: bool,
    rest: Seq<u8>,
)
    requires
        encode_utf8(name).len() <= u32::MAX,
    ensures
        ({
            let b = encode_array_len(3) + encode_str(encode_utf8(name)) + encode_u8(etype.tag())
                + encode_bool(is_nullable);
            AttributeView::decode(b + rest) == Ok::<(ColumnView, int), ErrorView>(
                (ColumnView { name, etype, is_nullable }, b.len() as int),
            )
        }),
{
    let text = encode_str(encode_utf8(name));
    let kind = encode_u8(etype.tag());
    let flag = encode_bool(is_nullable);
    let b = encode_array_len(3) + text + kind + flag + rest;
    let len = encode_utf8(name).len() as int;
    let m = text.len() - len;
    assert(decode_array_len(b) == Ok::<(u32, int), ErrorView>((3u32, 1int))) by {
        lemma_array_len_round_trip(3, text + kind + flag + rest);
        assert(b =~= encode_array_len(3) + (text + kind + flag + rest));
    }
    assert(decode_text(b.skip(1)) == Ok::<((Seq<char>, u32), int), ErrorView>(
        ((name, len as u32), m),
    )) by {
        assert(b.skip(1) =~= text + (kind + flag + rest));
        lemma_text_round_trip(name, kind + flag + rest);
    }
    assert(decode_u8(b.skip(1 + m + len)) == Ok::<(u8, int), ErrorView>((etype.tag(), 2int)))
        by {
        assert(b.skip(1 + m + len) =~= kind + (flag + rest));
        lemma_u8_round_trip(etype.tag(), flag + rest);
    }
    lemma_type_tag_round_trip(etype);
    assert(decode_bool(b.skip(1 + m + len + 2)) == Ok::<(bool, int), ErrorView>(
        (is_nullable, 1int),
    )) by {
        assert(b.skip(1 + m + len + 2) =~= flag + rest);
        lemma_bool_round_trip(is_nullable, rest);
    }
}

/// Writes a column that is part of its table: its name, the encoded form of
/// its type and whether it takes nulls, as an array of three.
pub fn write_column(stream: &mut SlotStream, attribute: &Attribute) -> (r: Result<
    (),
    FusionError,
>)
    ensures
        writes(old(stream)@, final(stream)@, r, attribute@.written(old(stream)@.room())),
{
    let ghost v0 = stream@;
    let room = stream.remaining();
    let etype = EncodedType::try_from(attribute.type_oid)?;
    let is_nullable = !attribute.not_null;
    write_array_len(stream, 3)?;
    let ghost acc = encode_array_len(3);
    let r = write_str(stream, attribute.name.as_str());
    proof {
        lemma_writes_then(
            v0,
            acc,
            stream@,
            r,
            str_written(encode_utf8(attribute.name@), room - acc.len()),
        );
    }
    r?;
    let ghost acc = acc + encode_str(encode_utf8(attribute.name@));
    let r = write_u8(stream, etype.to_u8());
    proof {
        lemma_writes_then(v0, acc, stream@, r, fit(encode_u8(etype.tag()), room - acc.len()));
    }
    r?;
    let ghost acc = acc + encode_u8(etype.tag());
    let r = write_bool(stream, is_nullable);
    proof {
        lemma_writes_then(v0, acc, stream@, r, fit(encode_bool(is_nullable), room - acc.len()));
    }
    r
}

/// Reads a column.
pub fn read_column(stream: &mut SlotStream) -> (r: Result<Column, FusionError>)
    ensures
        reads(old(stream)@, final(stream)@, viewed(r), AttributeView::decode(old(stream)@.ahead())),
{
    let ghost b = stream@.ahead();
    let ghost start = stream@.pos;
    let _ = stream.position();
    let count = read_array_len(stream)?;
    if count != 3 {
        return Err(FusionError::Deserialize("column".to_owned(), count as u64));
    }
    assert(stream@.ahead() == b.skip(stream@.pos - start));
    let name = read_string(stream)?;
    assert(stream@.ahead() == b.skip(stream@.pos - start));
    let etype = EncodedType::from_u8(read_u8(stream)?)?;
    assert(stream@.ahead() == b.skip(stream@.pos - start));
    let is_nullable = read_bool(stream)?;
    Ok(Column { name, etype, is_nullable })
}

impl Encode for &Attribute {
    type Form = AttributeView;

    open spec fn form(&self) -> AttributeView {
        self@
    }

    fn encode(&self, stream: &mut SlotStream) -> (r: Result<(), FusionError>) {
        write_column(stream, *self)
    }
}

impl Decode for Column {
    type Form = AttributeView;

    open spec fn got(&self) -> ColumnView {
        self@
    }

    fn decode(stream: &mut SlotStream) -> (r: Result<Column, FusionError>) {
        read_column(stream)
    }
}

// ---------------------------------------------------------------------------
// Tables
// ---------------------------------------------------------------------------

impl Wire for RelationView {
    type Read = TableView;

    open spec fn valid(self) -> bool {
        true
    }

    /// The table's identifier in five bytes, then the array of the columns
    /// that are part of the table.
    open spec fn written(self, room: int) -> Encoded {
        let id = fit(encode_u32(self.oid), room);
        then(id, array_written(live(self.attributes), after(id, room)))
    }

    open spec fn read(self) -> TableView {
        TableView { id: self.oid, columns: items_read(live(self.attributes)) }
    }

    open spec fn decode(b: Seq<u8>) -> Decoded<TableView> {
        match decode_u32(b) {
            Err(e) => Err(e),
            Ok((id, n)) => match decode_array::<AttributeView>(b.skip(n)) {
                Err(e) => Err(e),
                Ok((columns, m)) => Ok((TableView { id, columns }, n + m)),
            },
        }
    }

    proof fn lemma_fits(self, room: int) {
        let id = fit(encode_u32(self.oid), room);
        if id is Ok {
            lemma_array_fits(live(self.attributes), after(id, room));
        }
    }

    proof fn lemma_round_trip(self, room: int, rest: Seq<u8>) {
        if self.written(room) is Ok {
            let id = encode_u32(self.oid);
            let columns = array_written(live(self.attributes), room - id.len())->Ok_0;
            let b = id + columns + rest;
            lemma_u32_round_trip(self.oid, columns + rest);
            assert(b =~= id + (columns + rest));
            assert(b.skip(5) =~= columns + rest);
            lemma_array_round_trip(live(self.attributes), room - id.len(), rest);
        }
    }
}

/// The columns that are part of the table, in their order.
fn live_attributes(attributes: &Vec<Attribute>) -> (out: Vec<&Attribute>)
    ensures
        forms(out@) == live(attributes@.map_values(|a: Attribute| a@)),
{
    let ghost views = attributes@.map_values(|a: Attribute| a@);
    let mut out: Vec<&Attribute> = Vec::new();
    proof {
        assert(forms(out@) =~= live(views.take(0)));
    }
    let mut i: usize = 0;
    while i < attributes.len()
        invariant
            i <= attributes.len(),
            views == attributes@.map_values(|a: Attribute| a@),
            forms(out@) == live(views.take(i as int)),
        decreases attributes.len() - i,
    {
        let attribute = &attributes[i];
        proof {
            assert(views.take(i + 1).drop_last() =~= views.take(i as int));
            assert(views.take(i + 1).last() == attribute@);
        }
        if !attribute.is_dropped {
            proof {
                assert(forms(out@.push(attribute)) =~= forms(out@).push(attribute@));
            }
            out.push(attribute);
        }
        i = i + 1;
    }
    proof {
        assert(views.take(i as int) =~= views);
    }
    out
}

/// Writes the description of a table: its identifier and the columns that
/// are part of it. Dropped columns are left out.
pub fn serialize_table(relation: &Relation, stream: &mut SlotStream) -> (r: Result<
    (),
    FusionError,
>)
    ensures
        writes(old(stream)@, final(stream)@, r, relation@.written(old(stream)@.room())),
{
    let ghost v0 = stream@;
    let room = stream.remaining();
    let columns = live_attributes(&relation.attributes);
    write_u32(stream, relation.oid)?;
    let r = write_array(stream, columns.as_slice());
    proof {
        lemma_writes_then(
            v0,
            encode_u32(relation.oid),
            stream@,
            r,
            array_written(live(relation@.attributes), room - 5),
        );
    }
    r
}

/// Reads the description of a table.
pub fn read_table(stream: &mut SlotStream) -> (r: Result<Table, FusionError>)
    ensures
        reads(old(stream)@, final(stream)@, viewed(r), RelationView::decode(old(stream)@.ahead())),
{
    let ghost b = stream@.ahead();
    let _ = stream.position();
    let id = read_u32(stream)?;
    assert(stream@.ahead() == b.skip(5));
    let columns: Vec<Column> = read_array(stream)?;
    assert(columns@.map_values(|c: Column| c@) =~= columns@.map_values(|c: Column| c.got()));
    Ok(Table { id, columns })
}

impl Encode for Relation {
    type Form = RelationView;

    open spec fn form(&self) -> RelationView {
        self@
    }

    fn encode(&self, stream: &mut SlotStream) -> (r: Result<(), FusionError>) {
        serialize_table(self, stream)
    }
}

impl Decode for Table {
    type Form = RelationView;

    open spec fn got(&self) -> TableView {
        self@
    }

    fn decode(stream: &mut SlotStream) -> (r: Result<Table, FusionError>) {
        read_table(stream)
    }
}

} // verus!
