//! Message framing for a pair of processes that talk through fixed-size
//! shared slots: a six-byte header, one payload layout per packet kind, and
//! the choice of the process to wake once a message is in place.
//!
//! - [`protocol`]: the header, the messages and whom to wake for each.
//! - [`ipc`]: the slot as a byte buffer with a cursor.
//! - [`wire`]: single items, texts and arrays on a slot.
//! - [`table_ref`], [`data_type`], [`catalog`]: the values that messages
//!   carry, and their place in a payload.
//! - [`msgpack`]: the byte forms, and the calls into the `rmp` crate that
//!   produce and read them.
//! - [`error`]: the error type.
//!
//! Every function is verified but those at the end of [`msgpack`], whose
//! contracts state what `rmp` does.

pub mod catalog;
pub mod data_type;
pub mod error;
pub mod ipc;
pub mod msgpack;
pub mod protocol;
pub mod table_ref;
pub mod wire;
