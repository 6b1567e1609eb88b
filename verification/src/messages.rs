//! The messages that nodes exchange, and the envelope that carries them.

pub mod consensus;
pub mod protocol;
pub mod signed;
pub mod records;
pub mod requests;
pub mod sync;
pub mod typed;
