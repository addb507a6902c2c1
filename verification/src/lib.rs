//! Snapshot codec of a genesis state dump.
//!
//! A state dump is kept in a directory as two files: the contents of the
//! store's state column, and the state roots of the shards, one root per
//! shard and in the order of the shards. This crate holds the layout of that
//! directory and the encoding of the roots file.

pub mod laws;
pub mod layout;
pub mod roots;

pub use layout::{GENESIS_ROOTS_FILE, STATE_DUMP_FILE};
pub use roots::{decode_roots, encode_roots, DecodeError, EncodeError, StateRoot, HASH_SIZE};
