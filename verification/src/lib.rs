//! Message layer of a round-based Byzantine-fault-tolerant consensus engine.
//!
//! The crate holds the messages that the nodes of a blockchain exchange,
//! their encoding in bytes, the signed envelope that carries them, and the
//! rules by which a node decides what to do with a message.
//!
//! - [`storage`] is the byte encoding of the values that are hashed and
//!   stored: integers, digests, keys, text, points in time and the like.
//! - [`wire`], [`reader`] and [`writer`] are the encodings of the fields
//!   that messages are made of.
//! - [`messages`] holds the messages themselves: the records, the type
//!   `Protocol` that unites them, the signed envelope, and the typed
//!   message that binds a payload to its envelope.
//! - [`quorum`], [`consensus`] and [`sync`] hold the rules: how many votes
//!   decide, and what a node does with each kind of message.
//!
//! Nothing here reads a clock, a socket or a disk, and nothing signs or
//! hashes. The caller does that and hands the results in as plain values.

pub mod address;
pub mod bits;
pub mod consensus;
pub mod crypto;
pub mod endian;
pub mod equal;
pub mod hexadecimal;
pub mod messages;
pub mod quorum;
pub mod reader;
pub mod scalars;
pub mod storage;
pub mod sync;
pub mod types;
pub mod wire;
pub mod writer;
