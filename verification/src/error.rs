//! The one error type of the library.

use vstd::prelude::*;

verus! {

/// Why a message could not be written or read.
#[derive(Debug, PartialEq, Eq)]
pub enum FusionError {
    /// A tag byte that its enumeration does not define: the field's name and
    /// the byte read.
    Deserialize(String, u64),
    /// A payload longer than the slot can carry behind a header: the length
    /// of the payload that was to be sent.
    PayloadTooLarge(usize),
    /// A count or a length that does not fit the integer width the wire
    /// format gives it.
    ValueTooLarge,
    /// A write, a skip or a peek that would pass the end of the slot.
    SlotOverflow,
    /// The input ended where a marker byte was expected.
    InvalidMarkerRead,
    /// The input ended inside the data that follows a marker.
    InvalidDataRead,
    /// The marker byte found belongs to another type than the one asked for.
    TypeMismatch(u8),
    /// A string's bytes are not UTF-8.
    InvalidUtf8,
    /// A blob that is to end in a zero byte is empty or ends otherwise.
    MissingTerminator,
    /// A column type, by its catalog identifier, that has no encoded form.
    UnsupportedType(u32),
}

/// A [`FusionError`] as the contracts see it: the same cases, the field's
/// name as a sequence of characters.
pub enum ErrorView {
    Deserialize(Seq<char>, u64),
    PayloadTooLarge(usize),
    ValueTooLarge,
    SlotOverflow,
    InvalidMarkerRead,
    InvalidDataRead,
    TypeMismatch(u8),
    InvalidUtf8,
    MissingTerminator,
    UnsupportedType(u32),
}

impl View for FusionError {
    type V = ErrorView;

    open spec fn view(&self) -> ErrorView {
        match self {
            FusionError::Deserialize(field, value) => ErrorView::Deserialize(field@, *value),
            FusionError::PayloadTooLarge(len) => ErrorView::PayloadTooLarge(*len),
            FusionError::ValueTooLarge => ErrorView::ValueTooLarge,
            FusionError::SlotOverflow => ErrorView::SlotOverflow,
            FusionError::InvalidMarkerRead => ErrorView::InvalidMarkerRead,
            FusionError::InvalidDataRead => ErrorView::InvalidDataRead,
            FusionError::TypeMismatch(marker) => ErrorView::TypeMismatch(*marker),
            FusionError::InvalidUtf8 => ErrorView::InvalidUtf8,
            FusionError::MissingTerminator => ErrorView::MissingTerminator,
            FusionError::UnsupportedType(id) => ErrorView::UnsupportedType(*id),
        }
    }
}

} // verus!
